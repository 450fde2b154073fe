//! Managing the items of a clipboard repository.
use vstd::prelude::*;
use crate::domain::entities::{category_of, Category, ClipboardItem, Content, ItemId, MimeType};
use crate::domain::repositories::ClipboardRepository;
use crate::shared::{MaccyError, Result};
use crate::text::owned;

verus! {

/// `item` is the new item recorded for copied text `t`: identifier 0 (the
/// repository assigns one), plain text, its detected category, unpinned.
pub open spec fn new_text_item(item: ClipboardItem, t: Seq<char>) -> bool {
    &&& item.id == ItemId(0)
    &&& item.content matches Content::Text(s) && s@ == t
    &&& item.mime_type.0@ == "text/plain"@
    &&& item.category == Some(category_of(t))
    &&& !item.is_pinned
    &&& item.pin_order == 0
}

/// The outcome of looking text `text` up again after saving it: the found
/// item's identifier, or 0 when it is not found.
pub open spec fn saved_id_outcome(f: Result<Option<ClipboardItem>>, r: Result<ItemId>) -> bool {
    match f {
        Err(e) => r == Err::<ItemId, MaccyError>(e),
        Ok(Some(saved)) => r == Ok::<ItemId, MaccyError>(saved.id),
        Ok(None) => r == Ok::<ItemId, MaccyError>(ItemId(0)),
    }
}

/// Adding text `text` took repository `before` to `after` with result `r`:
/// the text is looked up; an item holding it is marked used and its
/// identifier returned; otherwise a new item is saved and looked up again.
/// The first error met is returned.
pub open spec fn text_add_outcome<R: ClipboardRepository>(
    before: R,
    text: &str,
    after: R,
    r: Result<ItemId>,
) -> bool {
    exists|found: Result<Option<ClipboardItem>>|
        #[trigger] call_ensures(R::find_by_content, (&before, text), found) && match found {
            Err(e) => r == Err::<ItemId, MaccyError>(e) && after == before,
            Ok(Some(existing)) => exists|u: Result<()>|
                #[trigger] before.last_used_updated(existing.id, &after, u) && match u {
                    Err(e) => r == Err::<ItemId, MaccyError>(e),
                    Ok(_) => r == Ok::<ItemId, MaccyError>(existing.id),
                },
            Ok(None) => exists|item: ClipboardItem, s: Result<()>|
                new_text_item(item, text@) && #[trigger] before.saved(item, &after, s) && match s {
                    Err(e) => r == Err::<ItemId, MaccyError>(e),
                    Ok(_) => exists|f: Result<Option<ClipboardItem>>|
                        #[trigger] call_ensures(R::find_by_content, (&after, text), f)
                            && saved_id_outcome(f, r),
                },
        }
}

/// Adds, lists, pins and deletes the items of a repository.
pub struct ItemManagementService<R: ClipboardRepository> {
    repository: R,
}

impl<R: ClipboardRepository> ItemManagementService<R> {
    /// The repository served.
    pub closed spec fn repo(&self) -> R {
        self.repository
    }

    pub fn new(repository: R) -> (s: Self)
        ensures
            s.repo() == repository,
    {
        Self { repository }
    }

    /// The repository served.
    pub fn repository(&self) -> (r: &R)
        ensures
            *r == self.repo(),
    {
        &self.repository
    }

    /// The service over repository `r` in place of its own.
    pub closed spec fn with_repo(self, r: R) -> Self {
        ItemManagementService { repository: r }
    }

    /// The repository served, for changes made beside this service.
    pub fn repository_mut(&mut self) -> (r: &mut R)
        ensures
            *r == old(self).repo(),
            final(self).repo() == *final(r),
            *final(self) == old(self).with_repo(*final(r)),
    {
        &mut self.repository
    }

    /// Records copied text: an item already holding it is marked used,
    /// otherwise a new item is saved; returns the item's identifier.
    pub fn add_text_item(&mut self, text: &str) -> (r: Result<ItemId>)
        ensures
            text_add_outcome(old(self).repo(), text, final(self).repo(), r),
    {
        let ghost before = self.repository;
        let category = Some(Category::from_text(text));
        let item = ClipboardItem::new(
            ItemId(0),
            Content::Text(owned(text)),
            MimeType::text_plain(),
            category,
        );
        let found = self.repository.find_by_content(text);
        match found {
            Err(e) => {
                let r: Result<ItemId> = Err(e);
                assert(call_ensures(R::find_by_content, (&before, text), found));
                r
            },
            Ok(Some(existing)) => {
                let id = existing.id;
                let u = self.repository.update_last_used(id);
                assert(call_ensures(R::find_by_content, (&before, text), found));
                assert(before.last_used_updated(id, &self.repository, u));
                match u {
                    Err(e) => Err(e),
                    Ok(_) => Ok(id),
                }
            },
            Ok(None) => {
                let s = self.repository.save(&item);
                assert(call_ensures(R::find_by_content, (&before, text), found));
                assert(before.saved(item, &self.repository, s));
                assert(new_text_item(item, text@));
                match s {
                    Err(e) => Err(e),
                    Ok(_) => {
                        let f = self.repository.find_by_content(text);
                        assert(call_ensures(R::find_by_content, (&self.repository, text), f));
                        match f {
                            Err(e) => Err(e),
                            Ok(Some(saved)) => Ok(saved.id),
                            Ok(None) => Ok(ItemId(0)),
                        }
                    },
                }
            },
        }
    }

    /// At most `limit` items, as the repository's `find_recent` gives them.
    pub fn get_recent_items(&self, limit: usize) -> (r: Result<Vec<ClipboardItem>>)
        ensures
            call_ensures(R::find_recent, (&self.repo(), limit), r),
    {
        self.repository.find_recent(limit)
    }

    /// The pinned items, as the repository's `find_pinned` gives them.
    pub fn get_pinned_items(&self) -> (r: Result<Vec<ClipboardItem>>)
        ensures
            call_ensures(R::find_pinned, (&self.repo(),), r),
    {
        self.repository.find_pinned()
    }

    /// Flips whether item `id` is pinned.
    pub fn toggle_pin(&mut self, id: ItemId) -> (r: Result<()>)
        ensures
            old(self).repo().pin_toggled(id, &final(self).repo(), r),
    {
        self.repository.toggle_pin(id)
    }

    /// Deletes item `id`.
    pub fn delete_item(&mut self, id: ItemId) -> (r: Result<()>)
        ensures
            old(self).repo().deleted(id, &final(self).repo(), r),
    {
        self.repository.delete(id)
    }

    /// Item `id`, as the repository's `find_by_id` gives it.
    pub fn get_item(&self, id: ItemId) -> (r: Result<Option<ClipboardItem>>)
        ensures
            call_ensures(R::find_by_id, (&self.repo(), id), r),
            r matches Ok(Some(item)) ==> item.id == id,
    {
        self.repository.find_by_id(id)
    }

    /// How many items the repository holds.
    pub fn get_total_count(&self) -> (r: Result<usize>)
        ensures
            call_ensures(R::count, (&self.repo(),), r),
    {
        self.repository.count()
    }

    /// Drops items so that at most `max_items` remain.
    pub fn rotate_history(&mut self, max_items: usize) -> (r: Result<()>)
        ensures
            old(self).repo().rotated(max_items, &final(self).repo(), r),
    {
        self.repository.rotate_history(max_items)
    }
}

/// A service over another repository serves that repository; over its own,
/// it is itself.
pub broadcast proof fn lemma_items_with_repo<R: ClipboardRepository>(s: ItemManagementService<R>, r: R)
    ensures
        (#[trigger] s.with_repo(r)).repo() == r,
        s.repo() == r ==> s.with_repo(r) == s,
{
}

/// Replacing the repository twice is replacing it once.
pub broadcast proof fn lemma_items_with_repo_twice<R: ClipboardRepository>(
    s: ItemManagementService<R>,
    a: R,
    b: R,
)
    ensures
        #[trigger] s.with_repo(a).with_repo(b) == s.with_repo(b),
{
}

} // verus!
