//! The global hotkey's callback, which can be registered only once.
use vstd::prelude::*;
use crate::text::owned;

verus! {

/// Holds the callback that the global hotkey runs.
pub struct HotkeyRegistry<F> {
    callback: Option<F>,
}

impl<F> HotkeyRegistry<F> {
    /// The registered callback, if any.
    pub closed spec fn callback_spec(&self) -> Option<F> {
        self.callback
    }

    /// No callback registered yet.
    pub fn new() -> (h: Self)
        ensures
            h.callback_spec() is None,
    {
        HotkeyRegistry { callback: None }
    }

    /// Registers `callback`. A callback can be registered only once; a
    /// second registration is refused and keeps the first.
    pub fn register(&mut self, callback: F) -> (r: Result<(), String>)
        ensures
            old(self).callback_spec() is None ==> r is Ok && final(self).callback_spec() == Some(
                callback,
            ),
            old(self).callback_spec() is Some ==> (r matches Err(m) && m@
                == "Hotkey callback already registered"@) && *final(self) == *old(self),
    {
        if self.callback.is_some() {
            return Err(owned("Hotkey callback already registered"));
        }
        self.callback = Some(callback);
        Ok(())
    }

    /// Whether a callback is registered.
    pub fn is_registered(&self) -> (r: bool)
        ensures
            r == (self.callback_spec() is Some),
    {
        self.callback.is_some()
    }

    /// The registered callback, if any.
    pub fn callback(&self) -> (r: Option<&F>)
        ensures
            match r {
                Some(f) => self.callback_spec() == Some(*f),
                None => self.callback_spec() is None,
            },
    {
        match &self.callback {
            Some(f) => Some(f),
            None => None,
        }
    }
}

} // verus!
