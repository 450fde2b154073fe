//! Detection of the category of a text.
use vstd::prelude::*;
use crate::domain::entities::{category_of, Category};

verus! {

/// Detects the category of clipboard text.
pub struct CategoryDetector;

impl CategoryDetector {
    pub fn detect(text: &str) -> (r: Category)
        ensures
            r == category_of(text@),
    {
        Category::from_text(text)
    }
}

} // verus!
