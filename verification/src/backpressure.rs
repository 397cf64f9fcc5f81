//! A guest that turns backpressure on and off.
//!
//! A runtime counts how often a component has asked for backpressure and holds
//! back new calls while the count is not zero.  A guest that wants it on or off,
//! whatever it was before, has to know what it asked for last.
use vstd::prelude::*;

verus! {

/// What the runtime is asked for.
#[derive(Debug, Clone, Copy, PartialEq, Eq)]
pub enum BackpressureAction {
    /// Count one more.
    Increment,
    /// Count one less.
    Decrement,
    /// Nothing: the count is right.
    Keep,
}

/// Whether the guest has backpressure on.
#[derive(Debug)]
pub struct Backpressure {
    enabled: bool,
}

impl View for Backpressure {
    type V = bool;

    closed spec fn view(&self) -> bool {
        self.enabled
    }
}

/// What takes backpressure from `before` to `enabled`.
pub open spec fn change(before: bool, enabled: bool) -> BackpressureAction {
    if enabled && !before {
        BackpressureAction::Increment
    } else if before && !enabled {
        BackpressureAction::Decrement
    } else {
        BackpressureAction::Keep
    }
}

impl Backpressure {
    /// Backpressure is off at first.
    pub fn new() -> (r: Backpressure)
        ensures
            !r@,
    {
        Backpressure { enabled: false }
    }

    /// Turns backpressure on or off.
    pub fn set_backpressure(&mut self, enabled: bool) -> (action: BackpressureAction)
        ensures
            final(self)@ == enabled,
            action == change(old(self)@, enabled),
            action is Increment <==> enabled && !old(self)@,
            action is Decrement <==> !enabled && old(self)@,
    {
        let before = self.enabled;
        self.enabled = enabled;
        if enabled && !before {
            BackpressureAction::Increment
        } else if before && !enabled {
            BackpressureAction::Decrement
        } else {
            BackpressureAction::Keep
        }
    }
}

/// What the guest last asked for in `settings`.
pub open spec fn last_setting(settings: Seq<bool>) -> bool {
    settings.len() > 0 && settings.last()
}

/// The runtime's count after backpressure was set as in `settings`.
pub open spec fn count(settings: Seq<bool>) -> int
    decreases settings.len(),
{
    if settings.len() == 0 {
        0
    } else {
        let before = count(settings.drop_last());
        match change(last_setting(settings.drop_last()), settings.last()) {
            BackpressureAction::Increment => before + 1,
            BackpressureAction::Decrement => before - 1,
            BackpressureAction::Keep => before,
        }
    }
}

/// The runtime holds calls back exactly if the guest last turned backpressure
/// on, and the count stays between zero and one.
pub proof fn law_last_setting_holds(settings: Seq<bool>)
    ensures
        count(settings) == if last_setting(settings) {
            1int
        } else {
            0int
        },
    decreases settings.len(),
{
    if settings.len() > 0 {
        law_last_setting_holds(settings.drop_last());
    }
}

} // verus!
