//! The content of a clipboard item.
use vstd::prelude::*;

verus! {

/// What an item holds: text, or the path of an image file.
#[derive(Debug, Clone, PartialEq)]
pub enum Content {
    Text(String),
    Image(String),
}

impl Content {
    pub fn is_text(&self) -> (r: bool)
        ensures
            r == (*self is Text),
    {
        matches!(self, Content::Text(_))
    }

    pub fn is_image(&self) -> (r: bool)
        ensures
            r == (*self is Image),
    {
        matches!(self, Content::Image(_))
    }

    pub fn as_text(&self) -> (r: Option<&str>)
        ensures
            match self {
                Content::Text(t) => r matches Some(s) && s@ == t@,
                Content::Image(_) => r is None,
            },
    {
        match self {
            Content::Text(text) => Some(text.as_str()),
            Content::Image(_) => None,
        }
    }

    pub fn as_image_path(&self) -> (r: Option<&String>)
        ensures
            match self {
                Content::Text(_) => r is None,
                Content::Image(p) => r == Some(p),
            },
    {
        match self {
            Content::Text(_) => None,
            Content::Image(path) => Some(path),
        }
    }

    pub(crate) fn copied(&self) -> (r: Self)
        ensures
            r == *self,
    {
        match self {
            Content::Text(t) => Content::Text(t.clone()),
            Content::Image(p) => Content::Image(p.clone()),
        }
    }
}

} // verus!
