mod category;
mod clipboard_item;
mod content;
mod item_id;
mod mime_type;
mod timestamp;

pub(crate) use timestamp::current_time_millis;
pub use category::{
    category_name, category_of, classify, is_url_like, looks_like_url, regex_matches, Category,
    AT_ACCOUNT_PATTERN, EMAIL_PATTERN, PLAIN_ACCOUNT_PATTERN,
};
pub use clipboard_item::{display_text_of, ClipboardItem, DISPLAY_TEXT_CHARS};
pub use content::Content;
pub use item_id::ItemId;
pub use mime_type::MimeType;
pub use timestamp::Timestamp;
