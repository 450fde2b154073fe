//! The history store served through the clipboard repository interface.
use vstd::prelude::*;
use crate::database::{
    history, id_row, is_full_error, is_no_row_error, other_id, records_of, strings_view,
    text_recorded, text_row, toggle_record, ClipboardItem as LegacyClipboardItem, DataType,
    Database, ItemRecord,
};
use crate::domain::entities::{ClipboardItem, Content, ItemId};
use crate::domain::repositories::ClipboardRepository;
use crate::domain::services::{rotation_victims, RotationService};
use crate::ordering::{is_permutation_of_range, lemma_stable_order, stable_order, stable_order_exec};
use crate::shared::{MaccyError, Result};
use crate::text::same_str;
use super::{converted, text_or_empty};

verus! {

broadcast use vstd::seq_lib::group_filter_ensures;

/// `v` holds the rows `h`, each as a domain item.
pub open spec fn history_converted(h: Seq<ItemRecord>, v: Seq<ClipboardItem>) -> bool {
    &&& v.len() == h.len()
    &&& forall|i: int| 0 <= i < h.len() ==> #[trigger] converted(h[i], v[i])
}

/// The position of the first row satisfying `p`.
pub open spec fn first_index(h: Seq<ItemRecord>, p: spec_fn(ItemRecord) -> bool) -> Option<int> {
    if exists|i: int| 0 <= i < h.len() && p(h[i]) && forall|j: int| 0 <= j < i ==> !p(#[trigger] h[j]) {
        Some(choose|i: int| 0 <= i < h.len() && p(h[i]) && forall|j: int| 0 <= j < i ==> !p(#[trigger] h[j]))
    } else {
        None
    }
}

pub open spec fn has_id(id: i64) -> spec_fn(ItemRecord) -> bool {
    |r: ItemRecord| r.id == id
}

/// Row `r` holds text `c`, whatever its type.
pub open spec fn legacy_matches_content(c: Seq<char>) -> spec_fn(ItemRecord) -> bool {
    |r: ItemRecord| r.value_text == Some(c)
}

pub open spec fn is_pinned_record() -> spec_fn(ItemRecord) -> bool {
    |r: ItemRecord| r.is_pinned
}

/// The history that the bridge serves.
pub open spec fn bridge_history(b: RepositoryBridge) -> Seq<ItemRecord> {
    history(b.records())
}

/// Sort keys: most recently used first.
pub open spec fn recency_keys(v: Seq<ClipboardItem>) -> Seq<(i128, i128)> {
    v.map_values(|d: ClipboardItem| ((-(d.last_used_at.0 as i128)) as i128, 0i128))
}

pub open spec fn min_len(a: int, b: int) -> int {
    if a <= b {
        a
    } else {
        b
    }
}

/// The `limit` most recently used of `all`, most recent first, equal times in
/// their order in `all`.
pub open spec fn recent_order(all: Seq<ClipboardItem>, limit: int) -> Seq<ClipboardItem> {
    stable_order(recency_keys(all)).take(min_len(all.len() as int, limit)).map_values(
        |k: usize| all[k as int],
    )
}

/// The image file of the row with identifier `id`, as a list of at most one.
pub open spec fn image_of(recs: Seq<ItemRecord>, id: i64) -> Seq<Seq<char>> {
    match id_row(recs, id) {
        Some(i) => match recs[i].image_path {
            Some(p) => seq![p],
            None => Seq::empty(),
        },
        None => Seq::empty(),
    }
}

/// The rows left after deleting the identifiers `ids` one after another.
pub open spec fn delete_all(recs: Seq<ItemRecord>, ids: Seq<ItemId>) -> Seq<ItemRecord>
    decreases ids.len(),
{
    if ids.len() == 0 {
        recs
    } else {
        delete_all(recs, ids.drop_last()).filter(other_id(ids.last().0))
    }
}

/// The image files of the rows deleted by deleting `ids` one after another.
pub open spec fn deleted_images(recs: Seq<ItemRecord>, ids: Seq<ItemId>) -> Seq<Seq<char>>
    decreases ids.len(),
{
    if ids.len() == 0 {
        Seq::empty()
    } else {
        deleted_images(recs, ids.drop_last()) + image_of(
            delete_all(recs, ids.drop_last()),
            ids.last().0,
        )
    }
}

/// The history store, served as a clipboard repository. Image files of the
/// rows it drops are kept for the caller to remove.
pub struct RepositoryBridge {
    db: Database,
    removed_images: Vec<String>,
}

impl RepositoryBridge {
    /// The rows of the store.
    pub closed spec fn records(&self) -> Seq<ItemRecord> {
        self.db.records()
    }

    /// The largest identifier the store has handed out.
    pub closed spec fn last_id(&self) -> i64 {
        self.db.last_id_spec()
    }

    /// Image files of dropped rows, not yet handed to the caller.
    pub closed spec fn pending_removals(&self) -> Seq<Seq<char>> {
        strings_view(self.removed_images@)
    }

    /// `self` and `other` hold the same store and the same pending files.
    pub open spec fn same_as(&self, other: &Self) -> bool {
        &&& self.records() == other.records()
        &&& self.last_id() == other.last_id()
        &&& self.pending_removals() == other.pending_removals()
    }

    /// Copying text `t` took `self` to `after` with result `r`, as the store's
    /// `add_text_item` does.
    pub open spec fn text_added(&self, t: Seq<char>, after: &Self, r: Result<()>) -> bool {
        &&& r is Ok <==> (text_row(self.records(), t) is Some || self.last_id() < i64::MAX)
        &&& r is Ok ==> exists|now: i64, removed: Seq<Seq<char>>|
            #[trigger] text_recorded(
                self.records(),
                self.last_id(),
                t,
                now,
                after.records(),
                after.last_id(),
                removed,
            ) && after.pending_removals() == self.pending_removals() + removed
        &&& r matches Err(e) ==> is_full_error(e) && self.same_as(after)
    }

    /// Serves `db`.
    pub fn new(db: Database) -> (b: Self)
        ensures
            b.records() == db.records(),
            b.last_id() == db.last_id_spec(),
            b.pending_removals() == Seq::<Seq<char>>::empty(),
    {
        let b = RepositoryBridge { db, removed_images: Vec::new() };
        assert(b.pending_removals() =~= Seq::<Seq<char>>::empty());
        b
    }

    /// The store served.
    pub fn database(&self) -> (r: &Database)
        ensures
            r.records() == self.records(),
            r.last_id_spec() == self.last_id(),
    {
        &self.db
    }

    /// Hands over the image files of dropped rows.
    pub fn take_removed_images(&mut self) -> (r: Vec<String>)
        ensures
            strings_view(r@) == old(self).pending_removals(),
            final(self).records() == old(self).records(),
            final(self).last_id() == old(self).last_id(),
            final(self).pending_removals() == Seq::<Seq<char>>::empty(),
    {
        let mut out: Vec<String> = Vec::new();
        std::mem::swap(&mut out, &mut self.removed_images);
        assert(self.pending_removals() =~= Seq::<Seq<char>>::empty());
        out
    }

    fn push_removed(&mut self, paths: Vec<String>)
        ensures
            final(self).pending_removals() == old(self).pending_removals() + strings_view(paths@),
            final(self).records() == old(self).records(),
            final(self).last_id() == old(self).last_id(),
    {
        let ghost before = self.pending_removals();
        let mut i: usize = 0;
        while i < paths.len()
            invariant
                i <= paths.len(),
                self.pending_removals() == before + strings_view(paths@.take(i as int)),
                self.records() == old(self).records(),
                self.last_id() == old(self).last_id(),
            decreases paths.len() - i,
        {
            let ghost prev = self.removed_images@;
            self.removed_images.push(paths[i].clone());
            assert(strings_view(self.removed_images@) =~= strings_view(prev).push(paths@[i as int]@));
            assert(strings_view(paths@.take(i as int + 1)) =~= strings_view(paths@.take(i as int)).push(
                paths@[i as int]@,
            ));
            i += 1;
        }
        assert(paths@.take(paths.len() as int) == paths@);
    }

    /// Copies text `text` into the store and keeps the image files it drops.
    fn add_text(&mut self, text: &str) -> (r: Result<()>)
        ensures
            old(self).text_added(text@, final(self), r),
    {
        let ghost before = *self;
        match self.db.add_text_item(text) {
            Ok(removed) => {
                let ghost rm = strings_view(removed@);
                let ghost mid_recs = self.db.records();
                let ghost mid_last = self.db.last_id_spec();
                self.push_removed(removed);
                proof {
                    let now = choose|now: i64|
                        #[trigger] text_recorded(
                            before.records(),
                            before.last_id(),
                            text@,
                            now,
                            mid_recs,
                            mid_last,
                            rm,
                        );
                    assert(text_recorded(
                        before.records(),
                        before.last_id(),
                        text@,
                        now,
                        self.records(),
                        self.last_id(),
                        rm,
                    ));
                    assert(self.pending_removals() == before.pending_removals() + rm);
                }
                let r: Result<()> = Ok(());
                assert(before == *old(self));
                assert(before.text_added(text@, self, r));
                r
            },
            Err(e) => Err(e),
        }
    }

    /// The history rows.
    fn history_rows(&self) -> (r: Vec<LegacyClipboardItem>)
        ensures
            records_of(r@) == history(self.records()),
    {
        match self.db.get_history() {
            Ok(h) => h,
            Err(_) => Vec::new(),
        }
    }

    /// The rows as domain items.
    fn convert_all(h: &Vec<LegacyClipboardItem>) -> (v: Vec<ClipboardItem>)
        ensures
            history_converted(records_of(h@), v@),
    {
        let mut v: Vec<ClipboardItem> = Vec::new();
        let mut i: usize = 0;
        while i < h.len()
            invariant
                i <= h.len(),
                v.len() == i,
                forall|k: int| 0 <= k < i ==> #[trigger] converted(h@[k]@, v@[k]),
            decreases h.len() - i,
        {
            v.push(ClipboardItem::from_legacy(&h[i]));
            i += 1;
        }
        v
    }

    /// The position of the first row of `h` with identifier `id`.
    pub(crate) fn first_with_id(h: &Vec<LegacyClipboardItem>, id: i64) -> (r: Option<usize>)
        ensures
            match r {
                Some(i) => first_index(records_of(h@), has_id(id)) == Some(i as int) && i < h.len(),
                None => first_index(records_of(h@), has_id(id)) is None,
            },
    {
        let ghost recs = records_of(h@);
        let mut i: usize = 0;
        while i < h.len()
            invariant
                recs == records_of(h@),
                i <= h.len(),
                forall|j: int| 0 <= j < i ==> !has_id(id)(#[trigger] recs[j]),
            decreases h.len() - i,
        {
            if h[i].id == id {
                proof {
                    assert(has_id(id)(recs[i as int]));
                    let c = choose|c: int|
                        0 <= c < recs.len() && has_id(id)(recs[c]) && forall|j: int|
                            0 <= j < c ==> !has_id(id)(#[trigger] recs[j]);
                    assert(c == i) by {
                        if c < i {
                        } else if c > i {
                            assert(!has_id(id)(recs[i as int]));
                        }
                    }
                }
                return Some(i);
            }
            i += 1;
        }
        None
    }

    /// The position of the first row of `h` holding text `content`.
    fn first_with_content(h: &Vec<LegacyClipboardItem>, content: &str) -> (r: Option<usize>)
        ensures
            match r {
                Some(i) => first_index(records_of(h@), legacy_matches_content(content@)) == Some(
                    i as int,
                ) && i < h.len(),
                None => first_index(records_of(h@), legacy_matches_content(content@)) is None,
            },
    {
        let ghost recs = records_of(h@);
        let ghost p = legacy_matches_content(content@);
        let mut i: usize = 0;
        while i < h.len()
            invariant
                recs == records_of(h@),
                p == legacy_matches_content(content@),
                i <= h.len(),
                forall|j: int| 0 <= j < i ==> !p(#[trigger] recs[j]),
            decreases h.len() - i,
        {
            let found = match &h[i].value_text {
                Some(t) => same_str(t.as_str(), content),
                None => false,
            };
            if found {
                proof {
                    assert(p(recs[i as int]));
                    let c = choose|c: int|
                        0 <= c < recs.len() && p(recs[c]) && forall|j: int|
                            0 <= j < c ==> !p(#[trigger] recs[j]);
                    assert(c == i) by {
                        if c > i {
                            assert(!p(recs[i as int]));
                        }
                    }
                }
                return Some(i);
            }
            assert(!p(recs[i as int]));
            i += 1;
        }
        None
    }

    /// Deletes the row with identifier `id` and keeps its image file.
    fn delete_row(&mut self, id: i64)
        ensures
            final(self).records() == old(self).records().filter(other_id(id)),
            final(self).last_id() == old(self).last_id(),
            final(self).pending_removals() == old(self).pending_removals() + image_of(
                old(self).records(),
                id,
            ),
    {
        let ghost before = *self;
        match self.db.delete_item(id) {
            Ok(Some(p)) => {
                let mut v: Vec<String> = Vec::new();
                v.push(p);
                let ghost mid = *self;
                self.push_removed(v);
                assert(strings_view(v@) =~= image_of(before.records(), id));
            },
            Ok(None) => {
                assert(image_of(before.records(), id) =~= Seq::<Seq<char>>::empty());
                assert(self.pending_removals() =~= before.pending_removals() + image_of(
                    before.records(),
                    id,
                ));
            },
            Err(_) => {},
        }
    }
}

impl ClipboardRepository for RepositoryBridge {
    open spec fn saved(&self, item: ClipboardItem, after: &Self, r: Result<()>) -> bool {
        match item.content {
            Content::Text(t) => self.text_added(t@, after, r),
            Content::Image(_) => r is Ok && self.same_as(after),
        }
    }

    open spec fn deleted(&self, id: ItemId, after: &Self, r: Result<()>) -> bool {
        &&& r is Ok
        &&& after.records() == self.records().filter(other_id(id.0))
        &&& after.last_id() == self.last_id()
        &&& after.pending_removals() == self.pending_removals() + image_of(self.records(), id.0)
    }

    open spec fn pin_updated(
        &self,
        id: ItemId,
        pinned: bool,
        order: i64,
        after: &Self,
        r: Result<()>,
    ) -> bool {
        if pinned && first_index(bridge_history(*self), has_id(id.0)) is Some {
            self.pin_toggled(id, after, r)
        } else {
            r is Ok && self.same_as(after)
        }
    }

    open spec fn pin_toggled(&self, id: ItemId, after: &Self, r: Result<()>) -> bool {
        &&& r is Ok <==> id_row(self.records(), id.0) is Some
        &&& r is Ok ==> after.records() == toggle_record(
            self.records(),
            id_row(self.records(), id.0)->0,
        ) && after.last_id() == self.last_id() && after.pending_removals()
            == self.pending_removals()
        &&& r matches Err(e) ==> is_no_row_error(e) && self.same_as(after)
    }

    open spec fn rotated(&self, max_items: usize, after: &Self, r: Result<()>) -> bool {
        &&& r is Ok
        &&& exists|all: Seq<ClipboardItem>|
            #[trigger] history_converted(bridge_history(*self), all) && after.records()
                == delete_all(self.records(), rotation_victims(all, max_items as int))
                && after.last_id() == self.last_id() && after.pending_removals()
                == self.pending_removals() + deleted_images(
                self.records(),
                rotation_victims(all, max_items as int),
            )
    }

    open spec fn last_used_updated(&self, id: ItemId, after: &Self, r: Result<()>) -> bool {
        match first_index(bridge_history(*self), has_id(id.0)) {
            Some(i) => if bridge_history(*self)[i].data_type == DataType::Text {
                self.text_added(text_or_empty(bridge_history(*self)[i].value_text), after, r)
            } else {
                r is Ok && self.same_as(after)
            },
            None => r is Ok && self.same_as(after),
        }
    }

    fn save(&mut self, item: &ClipboardItem) -> (r: Result<()>) {
        match &item.content {
            Content::Text(text) => self.add_text(text.as_str()),
            Content::Image(_) => Ok(()),
        }
    }

    fn find_by_id(&self, id: ItemId) -> (r: Result<Option<ClipboardItem>>)
        ensures
            r matches Ok(o) && match first_index(bridge_history(*self), has_id(id.0)) {
                Some(i) => o matches Some(d) && converted(bridge_history(*self)[i], d),
                None => o is None,
            },
    {
        let h = self.history_rows();
        match Self::first_with_id(&h, id.value()) {
            Some(i) => Ok(Some(ClipboardItem::from_legacy(&h[i]))),
            None => Ok(None),
        }
    }

    fn find_all(&self) -> (r: Result<Vec<ClipboardItem>>)
        ensures
            r matches Ok(v) && history_converted(bridge_history(*self), v@),
    {
        let h = self.history_rows();
        Ok(Self::convert_all(&h))
    }

    fn find_recent(&self, limit: usize) -> (r: Result<Vec<ClipboardItem>>)
        ensures
            r matches Ok(v) && exists|all: Seq<ClipboardItem>|
                #[trigger] history_converted(bridge_history(*self), all) && v@ == recent_order(
                    all,
                    limit as int,
                ),
    {
        let h = self.history_rows();
        let all = Self::convert_all(&h);
        let mut keys: Vec<(i128, i128)> = Vec::new();
        let mut i: usize = 0;
        while i < all.len()
            invariant
                i <= all.len(),
                keys@ == recency_keys(all@).take(i as int),
            decreases all.len() - i,
        {
            keys.push((-(all[i].last_used_at.0 as i128), 0i128));
            assert(recency_keys(all@).take(i as int + 1) =~= recency_keys(all@).take(i as int).push(
                ((-(all@[i as int].last_used_at.0 as i128)) as i128, 0i128),
            ));
            i += 1;
        }
        assert(recency_keys(all@).take(all.len() as int) =~= recency_keys(all@));
        let order = stable_order_exec(&keys);
        proof {
            lemma_stable_order(keys@);
        }
        let n = if order.len() < limit {
            order.len()
        } else {
            limit
        };
        let mut out: Vec<ClipboardItem> = Vec::new();
        let mut k: usize = 0;
        while k < n
            invariant
                order@ == stable_order(keys@),
                keys@ == recency_keys(all@),
                is_permutation_of_range(order@, keys@.len()),
                n == min_len(all.len() as int, limit as int),
                k <= n,
                out@ == order@.take(k as int).map_values(|j: usize| all@[j as int]),
            decreases n - k,
        {
            let j = order[k];
            out.push(all[j].copied());
            assert(order@.take(k as int + 1) =~= order@.take(k as int).push(j));
            assert(out@ =~= order@.take(k as int + 1).map_values(|j: usize| all@[j as int]));
            k += 1;
        }
        assert(out@ == recent_order(all@, limit as int));
        assert(history_converted(bridge_history(*self), all@));
        Ok(out)
    }

    fn find_pinned(&self) -> (r: Result<Vec<ClipboardItem>>)
        ensures
            r matches Ok(v) && history_converted(
                bridge_history(*self).filter(is_pinned_record()),
                v@,
            ),
    {
        let h = self.history_rows();
        let ghost recs = records_of(h@);
        let mut v: Vec<ClipboardItem> = Vec::new();
        let mut i: usize = 0;
        while i < h.len()
            invariant
                recs == records_of(h@),
                i <= h.len(),
                history_converted(recs.take(i as int).filter(is_pinned_record()), v@),
            decreases h.len() - i,
        {
            proof {
                assert(recs.take(i as int + 1) == recs.take(i as int).push(recs[i as int]));
                recs.take(i as int).lemma_filter_push(recs[i as int], is_pinned_record());
            }
            if h[i].is_pinned {
                v.push(ClipboardItem::from_legacy(&h[i]));
            }
            i += 1;
        }
        assert(recs.take(h.len() as int) == recs);
        Ok(v)
    }

    fn delete(&mut self, id: ItemId) -> (r: Result<()>) {
        self.delete_row(id.value());
        Ok(())
    }

    fn update_pin(&mut self, id: ItemId, pinned: bool, order: i64) -> (r: Result<()>) {
        let current = match self.find_by_id(id) {
            Ok(c) => c,
            Err(e) => return Err(e),
        };
        match current {
            Some(item) => {
                if item.is_pinned != pinned {
                    return self.toggle_pin(id);
                }
                Ok(())
            },
            None => Ok(()),
        }
    }

    fn toggle_pin(&mut self, id: ItemId) -> (r: Result<()>) {
        self.db.toggle_pin(id.value())
    }

    fn count(&self) -> (r: Result<usize>)
        ensures
            r matches Ok(n) && n == bridge_history(*self).len(),
    {
        let h = self.history_rows();
        Ok(h.len())
    }

    fn rotate_history(&mut self, max_items: usize) -> (r: Result<()>) {
        let h = self.history_rows();
        let domain_items = Self::convert_all(&h);
        let to_delete = RotationService::items_to_delete(domain_items.as_slice(), max_items);
        let ghost before = *self;
        let ghost victims = to_delete@;
        let mut k: usize = 0;
        while k < to_delete.len()
            invariant
                k <= to_delete.len(),
                victims == to_delete@,
                self.records() == delete_all(before.records(), victims.take(k as int)),
                self.last_id() == before.last_id(),
                self.pending_removals() == before.pending_removals() + deleted_images(
                    before.records(),
                    victims.take(k as int),
                ),
            decreases to_delete.len() - k,
        {
            let ghost t = victims.take(k as int + 1);
            assert(t.drop_last() =~= victims.take(k as int));
            self.delete_row(to_delete[k].value());
            assert(self.pending_removals() =~= before.pending_removals() + deleted_images(
                before.records(),
                t,
            ));
            k += 1;
        }
        assert(victims.take(to_delete.len() as int) =~= victims);
        assert(history_converted(bridge_history(before), domain_items@));
        Ok(())
    }

    fn find_by_content(&self, content: &str) -> (r: Result<Option<ClipboardItem>>)
        ensures
            r matches Ok(o) && match first_index(
                bridge_history(*self),
                legacy_matches_content(content@),
            ) {
                Some(i) => o matches Some(d) && converted(bridge_history(*self)[i], d),
                None => o is None,
            },
    {
        let h = self.history_rows();
        match Self::first_with_content(&h, content) {
            Some(i) => Ok(Some(ClipboardItem::from_legacy(&h[i]))),
            None => Ok(None),
        }
    }

    fn update_last_used(&mut self, id: ItemId) -> (r: Result<()>) {
        let h = self.history_rows();
        match Self::first_with_id(&h, id.value()) {
            Some(i) => match h[i].data_type {
                DataType::Text => {
                    let item = ClipboardItem::from_legacy(&h[i]);
                    match &item.content {
                        Content::Text(text) => self.add_text(text.as_str()),
                        Content::Image(_) => Ok(()),
                    }
                },
                DataType::Image => Ok(()),
            },
            None => Ok(()),
        }
    }
}

} // verus!
