//! Identifier of a clipboard item.
use vstd::prelude::*;
use crate::text::{decimal, format_i64};

verus! {

/// Identifier of a clipboard item, as the store assigns it.
#[derive(Debug, Clone, Copy, PartialEq, Eq, Structural, Hash)]
pub struct ItemId(pub i64);

impl ItemId {
    pub fn new(id: i64) -> (r: Self)
        ensures
            r.0 == id,
    {
        ItemId(id)
    }

    pub fn value(&self) -> (r: i64)
        ensures
            r == self.0,
    {
        self.0
    }

    /// The identifier in decimal, as `Display` writes it.
    #[allow(clippy::inherent_to_string)]
    pub fn to_string(&self) -> (r: String)
        ensures
            r@ == decimal(self.0 as int),
    {
        format_i64(self.0)
    }
}

} // verus!
