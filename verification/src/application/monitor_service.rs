//! Watching the clipboard: each new text is recorded once.
use vstd::prelude::*;
use crate::domain::entities::{Category, ClipboardItem, Content, ItemId, MimeType};
use crate::domain::repositories::ClipboardRepository;
use crate::shared::Result;
use crate::text::{same_str, trim, trim_str};
use super::item_management_service::new_text_item;

verus! {

/// Tracks the last text seen on the clipboard and whether watching is on.
pub struct MonitorService {
    last_text: String,
    is_running: bool,
}

/// What one look at the clipboard does: text that is not blank once trimmed
/// and differs from the last text seen becomes the last text and is saved as
/// a new item; anything else changes nothing.
pub open spec fn observed<R: ClipboardRepository>(
    before: MonitorService,
    repo_before: R,
    clip: Option<String>,
    after: MonitorService,
    repo_after: R,
    r: Result<()>,
) -> bool {
    match clip {
        Some(text) if trim(text@).len() > 0 && trim(text@) != before.last_text_spec() => {
            &&& after.last_text_spec() == trim(text@)
            &&& after.running() == before.running()
            &&& exists|item: ClipboardItem|
                new_text_item(item, trim(text@)) && #[trigger] repo_before.saved(
                    item,
                    &repo_after,
                    r,
                )
        },
        _ => after == before && repo_after == repo_before && r is Ok,
    }
}

impl MonitorService {
    /// The last text seen.
    pub closed spec fn last_text_spec(&self) -> Seq<char> {
        self.last_text@
    }

    /// Whether watching is on.
    pub closed spec fn running(&self) -> bool {
        self.is_running
    }

    /// Not watching, no text seen.
    pub fn new() -> (s: Self)
        ensures
            s.last_text_spec() == Seq::<char>::empty(),
            !s.running(),
    {
        MonitorService { last_text: String::new(), is_running: false }
    }

    /// Turns watching on.
    pub fn start(&mut self)
        ensures
            final(self).running(),
            final(self).last_text_spec() == old(self).last_text_spec(),
    {
        self.is_running = true;
    }

    /// Turns watching off.
    pub fn stop(&mut self)
        ensures
            !final(self).running(),
            final(self).last_text_spec() == old(self).last_text_spec(),
    {
        self.is_running = false;
    }

    pub fn is_running(&self) -> (r: bool)
        ensures
            r == self.running(),
    {
        self.is_running
    }

    /// The last text seen.
    pub fn get_last_text(&self) -> (r: String)
        ensures
            r@ == self.last_text_spec(),
    {
        self.last_text.clone()
    }

    /// One look at the clipboard, which held `clip`.
    pub fn observe_clipboard<R: ClipboardRepository>(
        &mut self,
        repository: &mut R,
        clip: Option<String>,
    ) -> (r: Result<()>)
        ensures
            observed(*old(self), *old(repository), clip, *final(self), *final(repository), r),
    {
        match &clip {
            Some(text) => {
                let trimmed = trim_str(text.as_str());
                if trimmed.unicode_len() > 0 && !same_str(self.last_text.as_str(), trimmed.as_str()) {
                    self.last_text = trimmed.clone();
                    let category = Some(Category::from_text(trimmed.as_str()));
                    let ghost t = trimmed@;
                    let item = ClipboardItem::new(
                        ItemId(0),
                        Content::Text(trimmed),
                        MimeType::text_plain(),
                        category,
                    );
                    assert(new_text_item(item, t));
                    repository.save(&item)
                } else {
                    Ok(())
                }
            },
            None => Ok(()),
        }
    }
}

} // verus!

verus! {

/// Text copied twice in a row (the same once trimmed) is saved at most once:
/// the second look changes nothing.
pub proof fn lemma_repeated_copy_saved_once<R: ClipboardRepository>(
    m0: MonitorService,
    r0: R,
    first: Option<String>,
    m1: MonitorService,
    r1: R,
    res1: Result<()>,
    second: Option<String>,
    m2: MonitorService,
    r2: R,
    res2: Result<()>,
)
    requires
        observed(m0, r0, first, m1, r1, res1),
        observed(m1, r1, second, m2, r2, res2),
        first is Some,
        second is Some,
        trim(first->0@) == trim(second->0@),
    ensures
        m2 == m1,
        r2 == r1,
        res2 is Ok,
{
}

} // verus!
