//! Detecting and assigning categories.
use vstd::prelude::*;
use crate::domain::entities::{category_of, display_text_of, Category, ClipboardItem};
use crate::domain::services::CategoryDetector;

verus! {

/// `item` with a category: its own, or the one detected from its display text.
pub open spec fn with_category(item: ClipboardItem) -> ClipboardItem {
    if item.category is None {
        ClipboardItem { category: Some(category_of(display_text_of(item.content))), ..item }
    } else {
        item
    }
}

/// Detects and assigns categories.
pub struct CategoryService;

impl CategoryService {
    /// The category of a text.
    pub fn detect_from_text(text: &str) -> (r: Category)
        ensures
            r == category_of(text@),
    {
        CategoryDetector::detect(text)
    }

    /// Gives an item without a category the one detected from its display
    /// text; an item's own category is kept.
    pub fn ensure_item_category(item: &mut ClipboardItem)
        ensures
            *final(item) == with_category(*old(item)),
    {
        if item.category.is_none() {
            let text = item.display_text();
            item.category = Some(Self::detect_from_text(text.as_str()));
        }
    }

    /// `ensure_item_category` on every item.
    pub fn detect_for_items(items: &mut Vec<ClipboardItem>)
        ensures
            final(items)@ == old(items)@.map_values(|it: ClipboardItem| with_category(it)),
    {
        let ghost orig = items@;
        let mut i: usize = 0;
        while i < items.len()
            invariant
                i <= items.len(),
                items@.len() == orig.len(),
                forall|k: int| 0 <= k < i ==> items@[k] == with_category(orig[k]),
                forall|k: int| i <= k < items@.len() ==> items@[k] == orig[k],
            decreases items.len() - i,
        {
            let mut it = items[i].copied();
            Self::ensure_item_category(&mut it);
            items.set(i, it);
            i += 1;
        }
        assert(items@ =~= orig.map_values(|it: ClipboardItem| with_category(it)));
    }
}

} // verus!

verus! {

/// Giving an item a category twice is giving it once.
pub proof fn lemma_with_category_idempotent(item: ClipboardItem)
    ensures
        with_category(with_category(item)) == with_category(item),
        with_category(item).category is Some,
        item.category is Some ==> with_category(item) == item,
{
}

} // verus!
