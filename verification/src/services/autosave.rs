//! Autosave scheduling: a debounce window for text edits, immediate saves
//! for everything else.

use vstd::prelude::*;

verus! {

/// Default debounce delay of text edits, in milliseconds.
pub const TEXT_DEBOUNCE_MS: u64 = 500;

/// What caused a save request.
#[derive(Debug, Clone, Copy, PartialEq, Eq, Structural)]
pub enum SaveTrigger {
    /// Typing: starts or restarts the debounce window.
    TextEdit,
    /// Adding, removing, reordering or retyping blocks: saved at once.
    StructuralChange,
    /// Menu or keyboard save.
    Manual,
    /// Switching chapter or project, or quitting.
    BeforeLeave,
}

impl SaveTrigger {
    /// Everything but a text edit is saved at once.
    pub fn is_immediate(self) -> (r: bool)
        ensures
            r == !(self is TextEdit),
    {
        match self {
            SaveTrigger::TextEdit => false,
            _ => true,
        }
    }
}

/// `a + b`, saturated at `u64::MAX`.
pub open spec fn sat_add(a: u64, b: u64) -> u64 {
    if a + b > u64::MAX {
        u64::MAX
    } else {
        (a + b) as u64
    }
}

/// A debounce timer driven by a monotonic clock in milliseconds supplied by
/// the caller.
#[derive(Debug, Clone, PartialEq, Eq, Structural)]
pub struct DebounceTimer {
    delay_ms: u64,
    /// When the pending save falls due; none when nothing is pending.
    due_at_ms: Option<u64>,
}

impl DebounceTimer {
    /// The debounce delay.
    pub closed spec fn delay(self) -> u64 {
        self.delay_ms
    }

    /// When the pending save falls due, if one is pending.
    pub closed spec fn due(self) -> Option<u64> {
        self.due_at_ms
    }

    /// A timer with the given delay and nothing pending.
    pub fn new(delay_ms: u64) -> (r: Self)
        ensures
            r.delay() == delay_ms,
            r.due() is None,
    {
        DebounceTimer { delay_ms, due_at_ms: None }
    }

    /// A timer with the default text-edit delay.
    pub fn with_default_delay() -> (r: Self)
        ensures
            r.delay() == TEXT_DEBOUNCE_MS,
            r.due() is None,
    {
        Self::new(TEXT_DEBOUNCE_MS)
    }

    /// Whether a save is pending.
    pub fn is_pending(&self) -> (r: bool)
        ensures
            r == self.due() is Some,
    {
        self.due_at_ms.is_some()
    }

    /// A text edit at `now_ms`: the save falls due one delay later, replacing
    /// any earlier due time.
    pub fn schedule_from(&mut self, now_ms: u64)
        ensures
            final(self).delay() == old(self).delay(),
            final(self).due() == Some(sat_add(now_ms, old(self).delay())),
    {
        self.due_at_ms = Some(now_ms.saturating_add(self.delay_ms));
    }

    /// Drops the pending save.
    pub fn cancel(&mut self)
        ensures
            final(self).delay() == old(self).delay(),
            final(self).due() is None,
    {
        self.due_at_ms = None;
    }

    pub open spec fn spec_is_due(self, now_ms: u64) -> bool {
        self.due() matches Some(t) && now_ms >= t
    }

    /// Whether a pending save has fallen due at `now_ms`.
    pub fn is_due(&self, now_ms: u64) -> (r: bool)
        ensures
            r == self.spec_is_due(now_ms),
    {
        match self.due_at_ms {
            Some(t) => now_ms >= t,
            None => false,
        }
    }

    /// When the pending save has fallen due, clears it and answers true;
    /// otherwise changes nothing and answers false.
    pub fn take_if_due(&mut self, now_ms: u64) -> (r: bool)
        ensures
            r == old(self).spec_is_due(now_ms),
            final(self).delay() == old(self).delay(),
            r ==> final(self).due() is None,
            !r ==> final(self).due() == old(self).due(),
    {
        if self.is_due(now_ms) {
            self.due_at_ms = None;
            true
        } else {
            false
        }
    }

    /// Before an immediate save: clears the pending save and answers whether
    /// there was one.
    pub fn take_pending(&mut self) -> (r: bool)
        ensures
            r == old(self).due() is Some,
            final(self).delay() == old(self).delay(),
            final(self).due() is None,
    {
        let was = self.due_at_ms.is_some();
        self.due_at_ms = None;
        was
    }
}

/// What to do with a save request.
#[derive(Debug, Clone, Copy, PartialEq, Eq, Structural)]
pub enum SaveAction {
    /// Restart the debounce window and save later.
    ScheduleDebounce,
    /// Save now.
    SaveNow,
}

/// Immediate triggers save now; text edits are debounced.
pub fn action_for(trigger: SaveTrigger) -> (r: SaveAction)
    ensures
        r == (if trigger is TextEdit { SaveAction::ScheduleDebounce } else { SaveAction::SaveNow }),
{
    if trigger.is_immediate() {
        SaveAction::SaveNow
    } else {
        SaveAction::ScheduleDebounce
    }
}

/// A timer last scheduled at `t` (as `schedule_from(t)` leaves it) is due
/// exactly from one delay after `t` on, when that does not pass the end of
/// the clock; rescheduling at a later `t` therefore pushes the window back.
pub proof fn lemma_debounce_window(timer: DebounceTimer, t: u64, now: u64)
    requires
        timer.due() == Some(sat_add(t, timer.delay())),
        t + timer.delay() <= u64::MAX,
    ensures
        timer.spec_is_due(now) == (now >= t + timer.delay()),
{
}

} // verus!
