//! Where clipboard items are kept.
use vstd::prelude::*;
use crate::domain::entities::{ClipboardItem, ItemId};
use crate::shared::Result;

verus! {

/// A store of clipboard items.
///
/// Each operation that changes the store has a relation, named after it,
/// between the store before the call, its arguments, the store after the call
/// and the result; an implementation states in it what the call does. For a
/// store that states nothing of an operation the relation is `true`.
pub trait ClipboardRepository {
    /// What `save(item)` did.
    open spec fn saved(&self, item: ClipboardItem, after: &Self, r: Result<()>) -> bool {
        true
    }

    /// What `delete(id)` did.
    open spec fn deleted(&self, id: ItemId, after: &Self, r: Result<()>) -> bool {
        true
    }

    /// What `update_pin(id, pinned, order)` did.
    open spec fn pin_updated(
        &self,
        id: ItemId,
        pinned: bool,
        order: i64,
        after: &Self,
        r: Result<()>,
    ) -> bool {
        true
    }

    /// What `toggle_pin(id)` did.
    open spec fn pin_toggled(&self, id: ItemId, after: &Self, r: Result<()>) -> bool {
        true
    }

    /// What `rotate_history(max_items)` did.
    open spec fn rotated(&self, max_items: usize, after: &Self, r: Result<()>) -> bool {
        true
    }

    /// What `update_last_used(id)` did.
    open spec fn last_used_updated(&self, id: ItemId, after: &Self, r: Result<()>) -> bool {
        true
    }

    /// Adds an item.
    fn save(&mut self, item: &ClipboardItem) -> (r: Result<()>)
        ensures
            old(self).saved(*item, final(self), r),
    ;

    /// The item with identifier `id`, if the store holds one.
    fn find_by_id(&self, id: ItemId) -> (r: Result<Option<ClipboardItem>>)
        ensures
            r matches Ok(Some(item)) ==> item.id == id,
    ;

    /// All items.
    fn find_all(&self) -> Result<Vec<ClipboardItem>>;

    /// At most `limit` items, most recent first.
    fn find_recent(&self, limit: usize) -> (r: Result<Vec<ClipboardItem>>)
        ensures
            r matches Ok(v) ==> v.len() <= limit,
    ;

    /// The pinned items.
    fn find_pinned(&self) -> Result<Vec<ClipboardItem>>;

    /// Removes the item with identifier `id`.
    fn delete(&mut self, id: ItemId) -> (r: Result<()>)
        ensures
            old(self).deleted(id, final(self), r),
    ;

    /// Sets whether the item with identifier `id` is pinned, and where.
    fn update_pin(&mut self, id: ItemId, pinned: bool, order: i64) -> (r: Result<()>)
        ensures
            old(self).pin_updated(id, pinned, order, final(self), r),
    ;

    /// Flips whether the item with identifier `id` is pinned.
    fn toggle_pin(&mut self, id: ItemId) -> (r: Result<()>)
        ensures
            old(self).pin_toggled(id, final(self), r),
    ;

    /// How many items the store holds.
    fn count(&self) -> Result<usize>;

    /// Drops items so that at most `max_items` remain.
    fn rotate_history(&mut self, max_items: usize) -> (r: Result<()>)
        ensures
            old(self).rotated(max_items, final(self), r),
    ;

    /// The item holding text `content`, if any.
    fn find_by_content(&self, content: &str) -> Result<Option<ClipboardItem>>;

    /// Marks the item with identifier `id` as used now.
    fn update_last_used(&mut self, id: ItemId) -> (r: Result<()>)
        ensures
            old(self).last_used_updated(id, final(self), r),
    ;
}

} // verus!
