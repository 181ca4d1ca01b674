//! The application state contract: an opaque, user-owned value the
//! widget tree reaches only during the update phase, through the two
//! operations a widget declares — applying a press callback and
//! reading a text binding.

use vstd::prelude::*;

use crate::update::Update;

verus! {

/// What the core asks of an application state. The core promises
/// nothing about these operations' results: they are the user's
/// callbacks, invoked only during the update phase, with exclusive
/// access passed explicitly.
pub trait State: Sized {
    /// Apply the callback a pressed widget declared; returns the
    /// dirty flags the callback wants escalated.
    fn apply(&mut self, action: u64) -> Update;

    /// Read the text a bound widget shows, from the current state.
    fn read(&self, binding: u64) -> String;
}

} // verus!
