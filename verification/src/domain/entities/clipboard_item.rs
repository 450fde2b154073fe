//! A clipboard history entry.
use vstd::prelude::*;
use crate::text::{chars_of, owned, string_of};
use super::category::{category_of, Category};
use super::content::Content;
use super::item_id::ItemId;
use super::mime_type::MimeType;
use super::timestamp::Timestamp;

verus! {

/// Number of characters shown of a text before it is cut short.
pub const DISPLAY_TEXT_CHARS: usize = 100;

/// An entry of the clipboard history.
#[derive(Debug, Clone, PartialEq)]
pub struct ClipboardItem {
    pub id: ItemId,
    pub content: Content,
    pub mime_type: MimeType,
    pub category: Option<Category>,
    pub is_pinned: bool,
    pub pin_order: i64,
    pub last_used_at: Timestamp,
}

/// How an item is shown in a list: a text of more than 100 characters is cut
/// to its first 100 and an ellipsis, an image is shown as a label.
pub open spec fn display_text_of(c: Content) -> Seq<char> {
    match c {
        Content::Text(t) => if t@.len() > DISPLAY_TEXT_CHARS {
            t@.take(DISPLAY_TEXT_CHARS as int).push('…')
        } else {
            t@
        },
        Content::Image(_) => "📷 Изображение"@,
    }
}

impl ClipboardItem {
    /// A new unpinned item, last used at time `now` (milliseconds).
    pub fn new_at(
        id: ItemId,
        content: Content,
        mime_type: MimeType,
        category: Option<Category>,
        now: i64,
    ) -> (r: Self)
        ensures
            r == (ClipboardItem {
                id,
                content,
                mime_type,
                category,
                is_pinned: false,
                pin_order: 0,
                last_used_at: Timestamp(now),
            }),
    {
        Self { id, content, mime_type, category, is_pinned: false, pin_order: 0, last_used_at: Timestamp::new(now) }
    }

    /// A new unpinned item, last used now: `new_at` with the time read from
    /// the clock.
    pub fn new(id: ItemId, content: Content, mime_type: MimeType, category: Option<Category>) -> (r:
        Self)
        ensures
            r == (ClipboardItem {
                id,
                content,
                mime_type,
                category,
                is_pinned: false,
                pin_order: 0,
                last_used_at: r.last_used_at,
            }),
    {
        let now = Timestamp::now();
        Self::new_at(id, content, mime_type, category, now.value())
    }

    /// A new text item, with its category detected from the text.
    pub fn text(text: String, id: ItemId) -> (r: Self)
        ensures
            r.id == id,
            r.content == Content::Text(text),
            r.mime_type.0@ == "text/plain"@,
            r.category == Some(category_of(text@)),
            !r.is_pinned,
            r.pin_order == 0,
    {
        let category = Some(Category::from_text(text.as_str()));
        Self::new(id, Content::Text(text), MimeType::text_plain(), category)
    }

    /// A new image item, in category `Picture`.
    pub fn image(image_path: String, mime_type: MimeType, id: ItemId) -> (r: Self)
        ensures
            r.id == id,
            r.content == Content::Image(image_path),
            r.mime_type == mime_type,
            r.category == Some(Category::Picture),
            !r.is_pinned,
            r.pin_order == 0,
    {
        Self::new(id, Content::Image(image_path), mime_type, Some(Category::Picture))
    }

    pub fn pinned(&self) -> (r: bool)
        ensures
            r == self.is_pinned,
    {
        self.is_pinned
    }

    /// Pins the item at position `order`.
    pub fn pin(&mut self, order: i64)
        ensures
            *final(self) == (ClipboardItem { is_pinned: true, pin_order: order, ..*old(self) }),
    {
        self.is_pinned = true;
        self.pin_order = order;
    }

    /// Unpins the item.
    pub fn unpin(&mut self)
        ensures
            *final(self) == (ClipboardItem { is_pinned: false, pin_order: 0, ..*old(self) }),
    {
        self.is_pinned = false;
        self.pin_order = 0;
    }

    /// Marks the item as used now; everything else is kept.
    pub fn update_last_used(&mut self)
        ensures
            *final(self) == (ClipboardItem { last_used_at: final(self).last_used_at, ..*old(self) }),
    {
        self.last_used_at = Timestamp::now();
    }

    /// The text shown for the item in a list.
    pub fn display_text(&self) -> (r: String)
        ensures
            r@ == display_text_of(self.content),
    {
        match &self.content {
            Content::Text(text) => {
                let v = chars_of(text.as_str());
                if v.len() > DISPLAY_TEXT_CHARS {
                    let mut cut: Vec<char> = Vec::new();
                    let mut i: usize = 0;
                    while i < DISPLAY_TEXT_CHARS
                        invariant
                            i <= DISPLAY_TEXT_CHARS < v.len(),
                            cut@ == v@.take(i as int),
                        decreases DISPLAY_TEXT_CHARS - i,
                    {
                        cut.push(v[i]);
                        assert(v@.take(i as int + 1) == v@.take(i as int).push(v@[i as int]));
                        i += 1;
                    }
                    cut.push('…');
                    string_of(&cut)
                } else {
                    text.clone()
                }
            },
            Content::Image(_) => owned("📷 Изображение"),
        }
    }

    /// A copy of the item.
    pub(crate) fn copied(&self) -> (r: Self)
        ensures
            r == *self,
    {
        ClipboardItem {
            id: self.id,
            content: self.content.copied(),
            mime_type: self.mime_type.copied(),
            category: self.category,
            is_pinned: self.is_pinned,
            pin_order: self.pin_order,
            last_used_at: self.last_used_at,
        }
    }
}

} // verus!
