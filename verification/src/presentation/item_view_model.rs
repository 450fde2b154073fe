//! An item as the popup shows it.
use vstd::prelude::*;
use crate::application::popup_service::{badge, badge_of};
use crate::domain::entities::{display_text_of, ClipboardItem};
use crate::text::{concat, contains, cuttable, decimal, format_i128, owned, seq_contains, truncate_bytes, truncated};

verus! {

/// The calendar date (`%Y-%m-%d`) of the UTC time `secs` seconds after the
/// Unix epoch, as `chrono::DateTime::<Utc>::from_timestamp(secs, 0)` formats
/// it; `None` where chrono has no such time.
pub uninterp spec fn chrono_date(secs: i64) -> Option<Seq<char>>;

/// `chrono::DateTime::<Utc>::from_timestamp(secs, 0)` formatted with
/// `%Y-%m-%d`; the contract claims that the result is a function of `secs`.
#[verifier::external_body]
fn utc_date(secs: i64) -> (r: Option<String>)
    ensures
        match r {
            Some(s) => chrono_date(secs) == Some(s@),
            None => chrono_date(secs) is None,
        },
{
    match chrono::DateTime::<chrono::Utc>::from_timestamp(secs, 0) {
        Some(dt) => Some(dt.format("%Y-%m-%d").to_string()),
        None => None,
    }
}

/// The current UTC time as whole seconds since the Unix epoch and the
/// nanoseconds past them (`chrono::Utc::now()`); it depends on the clock, so
/// nothing is stated of it.
#[verifier::external_body]
fn utc_now() -> (i64, u32) {
    let now = chrono::Utc::now();
    (now.timestamp(), now.timestamp_subsec_nanos())
}

/// Whole seconds from time `secs` to the time `now_secs` seconds and
/// `now_nanos` nanoseconds, rounded toward zero (chrono's `num_seconds`).
pub open spec fn elapsed_secs(secs: i64, now_secs: i64, now_nanos: u32) -> int {
    let d = now_secs - secs;
    if d < 0 && now_nanos > 0 {
        d + 1
    } else {
        d
    }
}

/// How the time `secs` (taken as seconds since the epoch) is shown at the
/// given current time: seconds, minutes or hours ago below a day, else its
/// date; `Unknown` where chrono has no such time.
pub open spec fn timestamp_text(secs: i64, now_secs: i64, now_nanos: u32) -> Seq<char> {
    match chrono_date(secs) {
        None => "Unknown"@,
        Some(date) => {
            let s = elapsed_secs(secs, now_secs, now_nanos);
            if s < 60 {
                decimal(s) + "s ago"@
            } else if s / 60 < 60 {
                decimal(s / 60) + "m ago"@
            } else if s / 3600 < 24 {
                decimal(s / 3600) + "h ago"@
            } else {
                date
            }
        },
    }
}

/// How time `timestamp` is shown at the given current time.
pub fn format_timestamp_at(timestamp: i64, now_secs: i64, now_nanos: u32) -> (r: String)
    ensures
        r@ == timestamp_text(timestamp, now_secs, now_nanos),
{
    match utc_date(timestamp) {
        None => owned("Unknown"),
        Some(date) => {
            let d: i128 = now_secs as i128 - timestamp as i128;
            let s: i128 = if d < 0 && now_nanos > 0 {
                d + 1
            } else {
                d
            };
            if s < 60 {
                let n = format_i128(s);
                concat(n.as_str(), "s ago")
            } else if s / 60 < 60 {
                let n = format_i128(s / 60);
                concat(n.as_str(), "m ago")
            } else if s / 3600 < 24 {
                let n = format_i128(s / 3600);
                concat(n.as_str(), "h ago")
            } else {
                date
            }
        },
    }
}

/// How time `timestamp` is shown now.
fn format_timestamp(timestamp: i64) -> (r: String)
    ensures
        exists|now_secs: i64, now_nanos: u32|
            r@ == #[trigger] timestamp_text(timestamp, now_secs, now_nanos),
{
    let (now_secs, now_nanos) = utc_now();
    format_timestamp_at(timestamp, now_secs, now_nanos)
}

/// Bytes of display text an item shows at most before it is cut.
pub const VIEW_TEXT_BYTES: usize = 100;

/// An item as the popup shows it.
#[derive(Debug, Clone, PartialEq)]
pub struct ItemViewModel {
    pub id: String,
    pub display_text: String,
    pub category_badge: Option<String>,
    pub is_pinned: bool,
    pub pin_order: i64,
    pub timestamp: String,
    pub mime_type: String,
}

/// `vm` shows `item`, with its time shown as `timestamp` shows it.
pub open spec fn shows(vm: ItemViewModel, item: ClipboardItem) -> bool {
    &&& vm.id@ == decimal(item.id.0 as int)
    &&& vm.display_text@ == truncated(display_text_of(item.content), VIEW_TEXT_BYTES as nat)
    &&& match item.category {
        Some(c) => vm.category_badge matches Some(b) && b@ == badge_of(c),
        None => vm.category_badge is None,
    }
    &&& vm.is_pinned == item.is_pinned
    &&& vm.pin_order == item.pin_order
    &&& vm.mime_type@ == item.mime_type.0@
    &&& exists|now_secs: i64, now_nanos: u32|
        vm.timestamp@ == #[trigger] timestamp_text(item.last_used_at.0, now_secs, now_nanos)
}

/// The item's display text can be cut to the view's length without
/// splitting a character.
pub open spec fn viewable(item: ClipboardItem) -> bool {
    cuttable(display_text_of(item.content), VIEW_TEXT_BYTES as nat)
}

impl ItemViewModel {
    /// How the popup shows `item`. Its time of last use, in milliseconds, is
    /// shown as if it were seconds.
    pub fn from_domain(item: &ClipboardItem) -> (r: Self)
        requires
            viewable(*item),
        ensures
            shows(r, *item),
    {
        let category_badge = match item.category {
            Some(c) => Some(badge(c)),
            None => None,
        };
        let display_text = item.display_text();
        let timestamp = format_timestamp(item.last_used_at.value());
        ItemViewModel {
            id: item.id.to_string(),
            display_text: Self::truncate_text(display_text.as_str(), VIEW_TEXT_BYTES),
            category_badge,
            is_pinned: item.is_pinned,
            pin_order: item.pin_order,
            timestamp,
            mime_type: owned(item.mime_type.value()),
        }
    }

    /// `text` cut to `max_length` bytes with `...` appended, when longer.
    pub fn truncate_text(text: &str, max_length: usize) -> (r: String)
        requires
            cuttable(text@, max_length as nat),
        ensures
            r@ == truncated(text@, max_length as nat),
    {
        truncate_bytes(text, max_length)
    }

    /// The badge, a space and the display text; the display text alone
    /// without a badge.
    pub fn get_styled_text(&self) -> (r: String)
        ensures
            r@ == match self.category_badge {
                Some(b) => b@ + " "@ + self.display_text@,
                None => self.display_text@,
            },
    {
        match &self.category_badge {
            Some(b) => {
                let with_space = concat(b.as_str(), " ");
                concat(with_space.as_str(), self.display_text.as_str())
            },
            None => self.display_text.clone(),
        }
    }

    /// `image` for an image type, `text` for a text type, else `file`.
    pub fn get_icon(&self) -> (r: &'static str)
        ensures
            r@ == if seq_contains(self.mime_type@, "image"@) {
                "image"@
            } else if seq_contains(self.mime_type@, "text"@) {
                "text"@
            } else {
                "file"@
            },
    {
        if contains(self.mime_type.as_str(), "image") {
            "image"
        } else if contains(self.mime_type.as_str(), "text") {
            "text"
        } else {
            "file"
        }
    }

    pub fn is_image(&self) -> (r: bool)
        ensures
            r == seq_contains(self.mime_type@, "image"@),
    {
        contains(self.mime_type.as_str(), "image")
    }

    pub fn is_text(&self) -> (r: bool)
        ensures
            r == (seq_contains(self.mime_type@, "text"@) || seq_contains(self.mime_type@, "plain"@)),
    {
        contains(self.mime_type.as_str(), "text") || contains(self.mime_type.as_str(), "plain")
    }
}

} // verus!
