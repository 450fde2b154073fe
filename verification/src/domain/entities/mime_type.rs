//! MIME types of clipboard content.
use vstd::prelude::*;
use crate::text::{owned, seq_starts_with, starts_with};

verus! {

/// A MIME type such as `text/plain`.
#[derive(Debug, Clone, PartialEq, Eq)]
pub struct MimeType(pub String);

impl MimeType {
    pub fn new(mime_type: String) -> (r: Self)
        ensures
            r.0@ == mime_type@,
    {
        MimeType(mime_type)
    }

    pub fn text_plain() -> (r: Self)
        ensures
            r.0@ == "text/plain"@,
    {
        MimeType(owned("text/plain"))
    }

    pub fn image_png() -> (r: Self)
        ensures
            r.0@ == "image/png"@,
    {
        MimeType(owned("image/png"))
    }

    pub fn image_jpeg() -> (r: Self)
        ensures
            r.0@ == "image/jpeg"@,
    {
        MimeType(owned("image/jpeg"))
    }

    pub fn value(&self) -> (r: &str)
        ensures
            r@ == self.0@,
    {
        self.0.as_str()
    }

    /// Whether the type is a text type (`text/...`).
    pub fn is_text(&self) -> (r: bool)
        ensures
            r == seq_starts_with(self.0@, "text/"@),
    {
        starts_with(self.0.as_str(), "text/")
    }

    /// Whether the type is an image type (`image/...`).
    pub fn is_image(&self) -> (r: bool)
        ensures
            r == seq_starts_with(self.0@, "image/"@),
    {
        starts_with(self.0.as_str(), "image/")
    }

    /// The type as `Display` writes it.
    #[allow(clippy::inherent_to_string)]
    pub fn to_string(&self) -> (r: String)
        ensures
            r@ == self.0@,
    {
        self.0.clone()
    }

    pub(crate) fn copied(&self) -> (r: Self)
        ensures
            r == *self,
    {
        MimeType(self.0.clone())
    }
}

impl From<String> for MimeType {
    fn from(s: String) -> (r: Self) {
        MimeType(s)
    }
}

impl vstd::std_specs::convert::FromSpecImpl<String> for MimeType {
    open spec fn obeys_from_spec() -> bool {
        true
    }

    open spec fn from_spec(s: String) -> Self {
        MimeType(s)
    }
}

} // verus!
