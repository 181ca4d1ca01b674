//! The dirty-flag record merged every tick: whether layout must be
//! recomputed, whether a redraw is needed, whether redraw is forced
//! (bypassing the dirty check), and whether widget callbacks must run.

use vstd::prelude::*;

verus! {

/// The four independent dirty flags that gate per-tick work.
///
/// Flags only ever escalate within a tick (they are OR-merged across
/// widget callback results and input events) and are tick-local: a fresh
/// record is derived from the pending events at the start of every tick.
#[derive(Clone, Copy, Debug, PartialEq, Eq, Structural)]
pub struct Update {
    /// Relayout is required this tick.
    pub layout: bool,
    /// Redraw is required this tick.
    pub draw: bool,
    /// Redraw unconditionally, bypassing the dirty check (e.g. after resize).
    pub force: bool,
    /// Widget callbacks must be evaluated this tick (raw input arrived).
    pub eval: bool,
}

impl Update {
    /// The record with no flag raised: an idle tick does no work.
    pub fn empty() -> (r: Update)
        ensures
            r == (Update { layout: false, draw: false, force: false, eval: false }),
    {
        Update { layout: false, draw: false, force: false, eval: false }
    }

    /// True when no flag is raised.
    pub open spec fn spec_is_empty(self) -> bool {
        !self.layout && !self.draw && !self.force && !self.eval
    }

    /// True when no flag is raised.
    pub fn is_empty(&self) -> (r: bool)
        ensures
            r == self.spec_is_empty(),
    {
        !self.layout && !self.draw && !self.force && !self.eval
    }

    /// The OR-merge of two flag records, used to fold the flags returned
    /// by a subtree into the ambient record: escalate, never suppress.
    pub open spec fn spec_or(self, other: Update) -> Update {
        Update {
            layout: self.layout || other.layout,
            draw: self.draw || other.draw,
            force: self.force || other.force,
            eval: self.eval || other.eval,
        }
    }

    /// OR-merge `other` into a copy of `self`.
    pub fn or(&self, other: &Update) -> (r: Update)
        ensures
            r == self.spec_or(*other),
    {
        Update {
            layout: self.layout || other.layout,
            draw: self.draw || other.draw,
            force: self.force || other.force,
            eval: self.eval || other.eval,
        }
    }

    /// A record with only `draw` raised, the flag a pressed widget returns.
    pub fn draw_only() -> (r: Update)
        ensures
            r == (Update { layout: false, draw: true, force: false, eval: false }),
    {
        Update { layout: false, draw: true, force: false, eval: false }
    }
}

/// Merging is monotone: every flag raised in either operand is raised in
/// the merge, so flags only ever escalate within a tick.
pub proof fn lemma_or_escalates(a: Update, b: Update)
    ensures
        a.layout ==> a.spec_or(b).layout,
        a.draw ==> a.spec_or(b).draw,
        a.force ==> a.spec_or(b).force,
        a.eval ==> a.spec_or(b).eval,
        b.layout ==> a.spec_or(b).layout,
        b.draw ==> a.spec_or(b).draw,
        b.force ==> a.spec_or(b).force,
        b.eval ==> a.spec_or(b).eval,
{
}

} // verus!
