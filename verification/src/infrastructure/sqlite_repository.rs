//! A repository over an SQLite connection that stores nothing yet.
use vstd::prelude::*;
use std::sync::{Arc, Mutex};
use crate::database::{Category as LegacyCategory, ClipboardItem as LegacyClipboardItem, DataType, ItemRecord};
use crate::domain::entities::{Category, ClipboardItem, Content, ItemId, MimeType, Timestamp};
use crate::domain::repositories::ClipboardRepository;
use crate::integration::{domain_opt, text_or_empty};
use crate::shared::Result;

verus! {

#[verifier::external_type_specification]
#[verifier::external_body]
pub struct ExConnection(rusqlite::Connection);

#[verifier::external_type_specification]
#[verifier::external_body]
#[verifier::reject_recursive_types(T)]
pub struct ExMutex<T: ?Sized>(std::sync::Mutex<T>);

/// Item `d` is stored row `r` with nothing lost: same identifier, the row's
/// text or image path as content (empty when missing), its own MIME type,
/// category, pin and time of last use.
pub open spec fn stored_item(r: ItemRecord, d: ClipboardItem) -> bool {
    &&& d.id == ItemId(r.id)
    &&& match r.data_type {
        DataType::Text => d.content matches Content::Text(t) && t@ == text_or_empty(r.value_text),
        DataType::Image => d.content matches Content::Image(p) && p@ == text_or_empty(r.image_path),
    }
    &&& d.mime_type.0@ == r.raw_mime_type
    &&& d.category == domain_opt(r.category)
    &&& d.is_pinned == r.is_pinned
    &&& d.pin_order == r.pin_order
    &&& d.last_used_at == Timestamp(r.last_used_at)
}

/// A repository over an SQLite connection. It keeps no items yet: every
/// query finds nothing and every change is accepted and changes nothing.
pub struct SqliteClipboardRepository {
    conn: Arc<Mutex<rusqlite::Connection>>,
}

impl SqliteClipboardRepository {
    /// The connection the repository was made with.
    pub closed spec fn connection(&self) -> Arc<Mutex<rusqlite::Connection>> {
        self.conn
    }

    pub fn new(conn: Arc<Mutex<rusqlite::Connection>>) -> (r: Self)
        ensures
            r.connection() == conn,
    {
        Self { conn }
    }

    /// A stored row as a domain item.
    #[allow(dead_code)]
    fn convert_to_domain(&self, old_item: &LegacyClipboardItem) -> (d: ClipboardItem)
        ensures
            stored_item(old_item@, d),
    {
        let content = if old_item.data_type == DataType::Text {
            match &old_item.value_text {
                Some(t) => Content::Text(t.clone()),
                None => Content::Text(String::new()),
            }
        } else {
            match &old_item.image_path {
                Some(p) => Content::Image(p.clone()),
                None => Content::Image(String::new()),
            }
        };
        let category = match old_item.category {
            Some(LegacyCategory::Url) => Some(Category::Url),
            Some(LegacyCategory::Email) => Some(Category::Email),
            Some(LegacyCategory::Account) => Some(Category::Account),
            Some(LegacyCategory::Picture) => Some(Category::Picture),
            Some(LegacyCategory::Other) => Some(Category::Other),
            None => None,
        };
        ClipboardItem {
            id: ItemId(old_item.id),
            content,
            mime_type: MimeType::new(old_item.raw_mime_type.clone()),
            category,
            is_pinned: old_item.is_pinned,
            pin_order: old_item.pin_order,
            last_used_at: Timestamp::new(old_item.last_used_at),
        }
    }
}

impl ClipboardRepository for SqliteClipboardRepository {
    open spec fn saved(&self, item: ClipboardItem, after: &Self, r: Result<()>) -> bool {
        *after == *self && r is Ok
    }

    open spec fn deleted(&self, id: ItemId, after: &Self, r: Result<()>) -> bool {
        *after == *self && r is Ok
    }

    open spec fn pin_updated(
        &self,
        id: ItemId,
        pinned: bool,
        order: i64,
        after: &Self,
        r: Result<()>,
    ) -> bool {
        *after == *self && r is Ok
    }

    open spec fn pin_toggled(&self, id: ItemId, after: &Self, r: Result<()>) -> bool {
        *after == *self && r is Ok
    }

    open spec fn rotated(&self, max_items: usize, after: &Self, r: Result<()>) -> bool {
        *after == *self && r is Ok
    }

    open spec fn last_used_updated(&self, id: ItemId, after: &Self, r: Result<()>) -> bool {
        *after == *self && r is Ok
    }

    fn save(&mut self, _item: &ClipboardItem) -> (r: Result<()>) {
        Ok(())
    }

    fn find_by_id(&self, _id: ItemId) -> (r: Result<Option<ClipboardItem>>)
        ensures
            r matches Ok(None),
    {
        Ok(None)
    }

    fn find_all(&self) -> (r: Result<Vec<ClipboardItem>>)
        ensures
            r matches Ok(v) && v@.len() == 0,
    {
        Ok(Vec::new())
    }

    fn find_recent(&self, _limit: usize) -> (r: Result<Vec<ClipboardItem>>)
        ensures
            r matches Ok(v) && v@.len() == 0,
    {
        Ok(Vec::new())
    }

    fn find_pinned(&self) -> (r: Result<Vec<ClipboardItem>>)
        ensures
            r matches Ok(v) && v@.len() == 0,
    {
        Ok(Vec::new())
    }

    fn delete(&mut self, _id: ItemId) -> (r: Result<()>) {
        Ok(())
    }

    fn update_pin(&mut self, _id: ItemId, _pinned: bool, _order: i64) -> (r: Result<()>) {
        Ok(())
    }

    fn toggle_pin(&mut self, _id: ItemId) -> (r: Result<()>) {
        Ok(())
    }

    fn count(&self) -> (r: Result<usize>)
        ensures
            r matches Ok(n) && n == 0,
    {
        Ok(0)
    }

    fn rotate_history(&mut self, _max_items: usize) -> (r: Result<()>) {
        Ok(())
    }

    fn find_by_content(&self, _content: &str) -> (r: Result<Option<ClipboardItem>>)
        ensures
            r matches Ok(None),
    {
        Ok(None)
    }

    fn update_last_used(&mut self, _id: ItemId) -> (r: Result<()>) {
        Ok(())
    }
}

} // verus!
