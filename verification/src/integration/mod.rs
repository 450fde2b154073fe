//! Conversions between the rows of the history store and the domain's
//! clipboard items, and adapters that serve the store through the older and
//! the newer interfaces.
pub mod repository_bridge;

pub use repository_bridge::{
    bridge_history, history_converted, legacy_matches_content, recency_keys, RepositoryBridge,
};

use vstd::prelude::*;
use crate::database::{
    history, records_of, stored_category, strings_view, text_recorded, text_row, id_row,
    toggle_record, unpinned_record, is_full_error, is_no_row_error, Category as LegacyCategory,
    ClipboardItem as LegacyClipboardItem, DataType, Database, ItemRecord,
};
use crate::ordering::{is_permutation_of_range, lemma_stable_order, stable_order, stable_order_exec};
use repository_bridge::{deleted_images, delete_all, image_of};
use crate::domain::entities::{Category, ClipboardItem, Content, ItemId, MimeType};
use crate::shared::{MaccyError, Result};
use crate::text::owned;

verus! {

/// The domain category of a stored category.
pub open spec fn domain_category(c: LegacyCategory) -> Category {
    match c {
        LegacyCategory::Url => Category::Url,
        LegacyCategory::Email => Category::Email,
        LegacyCategory::Account => Category::Account,
        LegacyCategory::Picture => Category::Picture,
        LegacyCategory::Other => Category::Other,
    }
}

/// The stored category of an optional domain category.
pub open spec fn stored_opt(c: Option<Category>) -> Option<LegacyCategory> {
    match c {
        Some(c) => Some(stored_category(c)),
        None => None,
    }
}

/// The domain category of an optional stored category.
pub open spec fn domain_opt(c: Option<LegacyCategory>) -> Option<Category> {
    match c {
        Some(c) => Some(domain_category(c)),
        None => None,
    }
}

/// The text of an optional string, empty when there is none.
pub open spec fn text_or_empty(o: Option<Seq<char>>) -> Seq<char> {
    match o {
        Some(t) => t,
        None => Seq::empty(),
    }
}

/// Item `d` is row `r` as a domain item: same identifier, the row's text or
/// image path as content (empty when missing), the type's standard MIME type,
/// the same category, unpinned. The time of last use is not taken from the row.
pub open spec fn converted(r: ItemRecord, d: ClipboardItem) -> bool {
    &&& d.id == ItemId(r.id)
    &&& match r.data_type {
        DataType::Text => d.content matches Content::Text(t) && t@ == text_or_empty(r.value_text)
            && d.mime_type.0@ == "text/plain"@,
        DataType::Image => d.content matches Content::Image(p) && p@ == text_or_empty(
            r.image_path,
        ) && d.mime_type.0@ == "image/png"@,
    }
    &&& d.category == domain_opt(r.category)
    &&& !d.is_pinned
    &&& d.pin_order == 0
}

/// The row that stores domain item `d`.
pub open spec fn legacy_record(d: ClipboardItem) -> ItemRecord {
    ItemRecord {
        id: d.id.0,
        value_text: match d.content {
            Content::Text(t) => Some(t@),
            Content::Image(_) => None,
        },
        image_path: match d.content {
            Content::Text(_) => None,
            Content::Image(p) => Some(p@),
        },
        data_type: match d.content {
            Content::Text(_) => DataType::Text,
            Content::Image(_) => DataType::Image,
        },
        raw_mime_type: d.mime_type.0@,
        category: stored_opt(d.category),
        is_pinned: d.is_pinned,
        pin_order: d.pin_order,
        last_used_at: d.last_used_at.0,
    }
}

impl ClipboardItem {
    /// The domain item for a stored row, as a new unpinned item last used now.
    pub fn from_legacy(legacy: &LegacyClipboardItem) -> (d: ClipboardItem)
        ensures
            converted(legacy@, d),
    {
        let content = match legacy.data_type {
            DataType::Text => match &legacy.value_text {
                Some(t) => Content::Text(t.clone()),
                None => Content::Text(String::new()),
            },
            DataType::Image => match &legacy.image_path {
                Some(p) => Content::Image(p.clone()),
                None => Content::Image(String::new()),
            },
        };
        let category = match legacy.category {
            Some(LegacyCategory::Url) => Some(Category::Url),
            Some(LegacyCategory::Email) => Some(Category::Email),
            Some(LegacyCategory::Account) => Some(Category::Account),
            Some(LegacyCategory::Picture) => Some(Category::Picture),
            Some(LegacyCategory::Other) => Some(Category::Other),
            None => None,
        };
        let mime_type = match legacy.data_type {
            DataType::Text => MimeType::text_plain(),
            DataType::Image => MimeType::image_png(),
        };
        ClipboardItem::new(ItemId(legacy.id), content, mime_type, category)
    }
}

impl LegacyClipboardItem {
    /// The stored row for a domain item.
    pub fn from_domain(domain: &ClipboardItem) -> (l: LegacyClipboardItem)
        ensures
            l@ == legacy_record(*domain),
    {
        let (data_type, value_text, image_path) = match &domain.content {
            Content::Text(text) => (DataType::Text, Some(text.clone()), None),
            Content::Image(path) => (DataType::Image, None, Some(path.clone())),
        };
        let category = match domain.category {
            Some(c) => Some(LegacyCategory::from_domain(c)),
            None => None,
        };
        LegacyClipboardItem {
            id: domain.id.value(),
            value_text,
            image_path,
            data_type,
            raw_mime_type: owned(domain.mime_type.value()),
            category,
            is_pinned: domain.is_pinned,
            pin_order: domain.pin_order,
            last_used_at: domain.last_used_at.value(),
        }
    }
}

broadcast use vstd::seq_lib::group_filter_ensures;

/// Sort keys: least recently used first.
pub open spec fn oldest_first_keys(rows: Seq<ItemRecord>) -> Seq<(i128, i128)> {
    rows.map_values(|r: ItemRecord| (r.last_used_at as i128, 0i128))
}

/// The identifiers the adapter deletes to keep at most `max_items` unpinned
/// rows of history `h`: the least recently used unpinned ones.
pub open spec fn adapter_victims(h: Seq<ItemRecord>, max_items: int) -> Seq<ItemId> {
    let u = h.filter(unpinned_record());
    if u.len() > max_items {
        stable_order(oldest_first_keys(u)).take(u.len() - max_items).map_values(
            |k: usize| ItemId(u[k as int].id),
        )
    } else {
        Seq::empty()
    }
}

/// The history store behind the store's own interface, with a history-size
/// limit of its own. Image files of dropped rows are kept for the caller.
pub struct DatabaseAdapter {
    legacy_db: Database,
    use_new_architecture: bool,
    removed_images: Vec<String>,
}

impl DatabaseAdapter {
    pub closed spec fn records(&self) -> Seq<ItemRecord> {
        self.legacy_db.records()
    }

    pub closed spec fn last_id(&self) -> i64 {
        self.legacy_db.last_id_spec()
    }

    pub closed spec fn pending_removals(&self) -> Seq<Seq<char>> {
        strings_view(self.removed_images@)
    }

    pub closed spec fn new_architecture(&self) -> bool {
        self.use_new_architecture
    }

    /// An adapter over `db`.
    pub fn new(db: Database) -> (r: Result<Self>)
        ensures
            r matches Ok(a) && a.records() == db.records() && a.last_id() == db.last_id_spec()
                && a.pending_removals() == Seq::<Seq<char>>::empty() && !a.new_architecture(),
    {
        let a = DatabaseAdapter { legacy_db: db, use_new_architecture: false, removed_images: Vec::new() };
        assert(a.pending_removals() =~= Seq::<Seq<char>>::empty());
        Ok(a)
    }

    /// The history.
    pub fn get_history(&self) -> (r: Result<Vec<LegacyClipboardItem>>)
        ensures
            r matches Ok(v) && records_of(v@) == history(self.records()),
    {
        self.legacy_db.get_history()
    }

    fn keep_removed(&mut self, paths: Vec<String>)
        ensures
            final(self).pending_removals() == old(self).pending_removals() + strings_view(paths@),
            final(self).records() == old(self).records(),
            final(self).last_id() == old(self).last_id(),
            final(self).new_architecture() == old(self).new_architecture(),
    {
        let mut i: usize = 0;
        let ghost before = self.pending_removals();
        while i < paths.len()
            invariant
                i <= paths.len(),
                self.pending_removals() == before + strings_view(paths@.take(i as int)),
                self.records() == old(self).records(),
                self.last_id() == old(self).last_id(),
                self.new_architecture() == old(self).new_architecture(),
            decreases paths.len() - i,
        {
            let ghost prev = self.removed_images@;
            self.removed_images.push(paths[i].clone());
            assert(strings_view(self.removed_images@) =~= strings_view(prev).push(paths@[i as int]@));
            assert(strings_view(paths@.take(i as int + 1)) =~= strings_view(paths@.take(i as int)).push(
                paths@[i as int]@,
            ));
            i += 1;
        }
        assert(paths@.take(paths.len() as int) == paths@);
    }

    /// Records copied text; returns 0.
    pub fn add_text_item(&mut self, text: &str) -> (r: Result<i64>)
        ensures
            r is Ok <==> (text_row(old(self).records(), text@) is Some || old(self).last_id() < i64::MAX),
            r is Ok ==> r == Ok::<i64, MaccyError>(0) && exists|now: i64, removed: Seq<Seq<char>>|
                #[trigger] text_recorded(
                    old(self).records(),
                    old(self).last_id(),
                    text@,
                    now,
                    final(self).records(),
                    final(self).last_id(),
                    removed,
                ) && final(self).pending_removals() == old(self).pending_removals() + removed,
            r matches Err(e) ==> is_full_error(e) && final(self).records() == old(self).records()
                && final(self).last_id() == old(self).last_id() && final(self).pending_removals()
                == old(self).pending_removals(),
            final(self).new_architecture() == old(self).new_architecture(),
    {
        let ghost before = *self;
        match self.legacy_db.add_text_item(text) {
            Ok(removed) => {
                let ghost rm = strings_view(removed@);
                let ghost mid_recs = self.legacy_db.records();
                let ghost mid_last = self.legacy_db.last_id_spec();
                self.keep_removed(removed);
                proof {
                    let now = choose|now: i64|
                        #[trigger] text_recorded(before.records(), before.last_id(), text@, now, mid_recs, mid_last, rm);
                    assert(text_recorded(before.records(), before.last_id(), text@, now, self.records(), self.last_id(), rm));
                }
                Ok(0)
            },
            Err(e) => Err(e),
        }
    }

    /// Deletes the row with identifier `id`.
    pub fn delete_item(&mut self, id: i64) -> (r: Result<()>)
        ensures
            r is Ok,
            final(self).records() == old(self).records().filter(crate::database::other_id(id)),
            final(self).last_id() == old(self).last_id(),
            final(self).pending_removals() == old(self).pending_removals() + image_of(old(self).records(), id),
            final(self).new_architecture() == old(self).new_architecture(),
    {
        let ghost before = self.records();
        match self.legacy_db.delete_item(id) {
            Ok(Some(p)) => {
                let mut v: Vec<String> = Vec::new();
                v.push(p);
                assert(strings_view(v@) =~= image_of(before, id));
                self.keep_removed(v);
            },
            _ => {
                assert(image_of(before, id) =~= Seq::<Seq<char>>::empty());
                assert(self.pending_removals() =~= self.pending_removals() + image_of(before, id));
            },
        }
        Ok(())
    }

    /// Flips whether the row with identifier `id` is pinned.
    pub fn toggle_pin(&mut self, id: i64) -> (r: Result<()>)
        ensures
            r is Ok <==> id_row(old(self).records(), id) is Some,
            r is Ok ==> final(self).records() == toggle_record(old(self).records(), id_row(old(self).records(), id)->0),
            r matches Err(e) ==> is_no_row_error(e) && final(self).records() == old(self).records(),
            final(self).last_id() == old(self).last_id(),
            final(self).pending_removals() == old(self).pending_removals(),
            final(self).new_architecture() == old(self).new_architecture(),
    {
        self.legacy_db.toggle_pin(id)
    }

    /// Deletes the least recently used unpinned rows of the history until at
    /// most `max_items` unpinned ones remain.
    pub fn rotate_history(&mut self, max_items: usize) -> (r: Result<()>)
        ensures
            r is Ok,
            final(self).records() == delete_all(
                old(self).records(),
                adapter_victims(history(old(self).records()), max_items as int),
            ),
            final(self).last_id() == old(self).last_id(),
            final(self).pending_removals() == old(self).pending_removals() + deleted_images(
                old(self).records(),
                adapter_victims(history(old(self).records()), max_items as int),
            ),
            final(self).new_architecture() == old(self).new_architecture(),
    {
        let h = match self.legacy_db.get_history() {
            Ok(h) => h,
            Err(_) => Vec::new(),
        };
        let ghost hr = records_of(h@);
        let ghost u = hr.filter(unpinned_record());
        let mut ids: Vec<ItemId> = Vec::new();
        let mut keys: Vec<(i128, i128)> = Vec::new();
        let mut i: usize = 0;
        while i < h.len()
            invariant
                hr == records_of(h@),
                i <= h.len(),
                ids@ == hr.take(i as int).filter(unpinned_record()).map_values(|r: ItemRecord| ItemId(r.id)),
                keys@ == oldest_first_keys(hr.take(i as int).filter(unpinned_record())),
                ids@.len() == keys@.len(),
            decreases h.len() - i,
        {
            proof {
                assert(hr.take(i as int + 1) == hr.take(i as int).push(hr[i as int]));
                hr.take(i as int).lemma_filter_push(hr[i as int], unpinned_record());
            }
            if !h[i].is_pinned {
                ids.push(ItemId(h[i].id));
                keys.push((h[i].last_used_at as i128, 0i128));
                assert(ids@ =~= hr.take(i as int + 1).filter(unpinned_record()).map_values(|r: ItemRecord| ItemId(r.id)));
                assert(keys@ =~= oldest_first_keys(hr.take(i as int + 1).filter(unpinned_record())));
            }
            i += 1;
        }
        assert(hr.take(h.len() as int) == hr);
        let ghost before = *self;
        let ghost victims = adapter_victims(hr, max_items as int);
        let mut doomed: Vec<ItemId> = Vec::new();
        if ids.len() > max_items {
            let order = stable_order_exec(&keys);
            proof {
                lemma_stable_order(keys@);
            }
            let n = ids.len() - max_items;
            let mut k: usize = 0;
            while k < n
                invariant
                    order@ == stable_order(keys@),
                    is_permutation_of_range(order@, keys@.len()),
                    ids@.len() == keys@.len(),
                    ids@ == u.map_values(|r: ItemRecord| ItemId(r.id)),
                    keys@ == oldest_first_keys(u),
                    n == ids@.len() - max_items,
                    k <= n,
                    doomed@ == order@.take(k as int).map_values(|j: usize| ItemId(u[j as int].id)),
                decreases n - k,
            {
                doomed.push(ids[order[k]]);
                assert(order@.take(k as int + 1) =~= order@.take(k as int).push(order@[k as int]));
                assert(doomed@ =~= order@.take(k as int + 1).map_values(|j: usize| ItemId(u[j as int].id)));
                k += 1;
            }
        }
        assert(doomed@ =~= victims);
        let mut k: usize = 0;
        while k < doomed.len()
            invariant
                k <= doomed.len(),
                doomed@ == victims,
                self.records() == delete_all(before.records(), victims.take(k as int)),
                self.last_id() == before.last_id(),
                self.pending_removals() == before.pending_removals() + deleted_images(before.records(), victims.take(k as int)),
                self.new_architecture() == before.new_architecture(),
            decreases doomed.len() - k,
        {
            let ghost t = victims.take(k as int + 1);
            assert(t.drop_last() =~= victims.take(k as int));
            match self.delete_item(doomed[k].value()) {
                _ => {},
            }
            assert(self.pending_removals() =~= before.pending_removals() + deleted_images(before.records(), t));
            k += 1;
        }
        assert(victims.take(doomed.len() as int) =~= victims);
        Ok(())
    }

    /// Chooses whether the newer store is used.
    pub fn set_use_new_architecture(&mut self, use_new: bool)
        ensures
            final(self).new_architecture() == use_new,
            final(self).records() == old(self).records(),
            final(self).last_id() == old(self).last_id(),
            final(self).pending_removals() == old(self).pending_removals(),
    {
        self.use_new_architecture = use_new;
    }

    /// Hands over the image files of dropped rows.
    pub fn take_removed_images(&mut self) -> (r: Vec<String>)
        ensures
            strings_view(r@) == old(self).pending_removals(),
            final(self).pending_removals() == Seq::<Seq<char>>::empty(),
            final(self).records() == old(self).records(),
            final(self).last_id() == old(self).last_id(),
            final(self).new_architecture() == old(self).new_architecture(),
    {
        let mut out: Vec<String> = Vec::new();
        std::mem::swap(&mut out, &mut self.removed_images);
        assert(self.pending_removals() =~= Seq::<Seq<char>>::empty());
        out
    }
}

} // verus!
