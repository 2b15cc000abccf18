//! How often the layout is written: at most once per second, however many
//! changes come in between.
use vstd::prelude::*;

use std::time::{Duration, Instant};

verus! {

/// A point in time of the monotonic clock.
#[verifier::external_type_specification]
#[verifier::external_body]
pub struct ExInstant(Instant);

/// `Instant::now`: the current time. Nothing is stated of it.
#[verifier::external_body]
fn clock_now() -> (r: Instant) {
    Instant::now()
}

/// `Instant::elapsed`: the time since the instant. It depends on the clock,
/// so nothing is stated of it.
#[verifier::external_body]
fn time_since(instant: &Instant) -> (r: Duration) {
    instant.elapsed()
}

/// `Duration::as_millis`: the whole milliseconds of a duration. The
/// duration is opaque here, so nothing is stated of the number.
#[verifier::external_body]
fn whole_millis(duration: &Duration) -> (r: u128) {
    duration.as_millis()
}

/// The least time between two writes, in milliseconds.
pub const DEBOUNCE_WINDOW_MILLIS: u128 = 1000;

/// A write is due when one is pending and either nothing was written yet
/// or the last write is at least the debounce window ago.
pub open spec fn flush_is_due(pending: bool, since_last_write: Option<u128>) -> bool {
    pending && match since_last_write {
        None => true,
        Some(ms) => ms >= DEBOUNCE_WINDOW_MILLIS,
    }
}

/// Whether a write is due, given the milliseconds since the last write
/// (`None`: nothing written yet).
pub fn flush_due(pending: bool, since_last_write: Option<u128>) -> (r: bool)
    ensures
        r == flush_is_due(pending, since_last_write),
{
    if !pending {
        return false;
    }
    match since_last_write {
        None => true,
        Some(ms) => ms >= DEBOUNCE_WINDOW_MILLIS,
    }
}

/// What a debouncer is: whether a write is pending, whether one was made
/// (and when is then kept), and whether a timer is armed to look again.
pub struct DebouncerView {
    pub pending: bool,
    pub written: bool,
    pub timer_armed: bool,
}

/// What the debouncer is told.
#[derive(Debug, Clone, Copy, PartialEq, Eq, Structural)]
pub enum DebounceEvent {
    /// The layout changed.
    Changed,
    /// The timer that the debouncer asked for ran out.
    TimerFired,
}

/// What the caller is to do next.
#[derive(Debug, Clone, Copy, PartialEq, Eq, Structural)]
pub enum DebounceAction {
    /// Write the layout now, then call `mark_flushed`.
    WriteNow,
    /// Arm a timer of this many milliseconds and report `TimerFired`.
    ArmTimer(u128),
    /// Nothing: no write is pending, or a timer is armed already.
    Wait,
}

/// The debouncer once the event is noted, before it decides.
pub open spec fn noted(d: DebouncerView, event: DebounceEvent) -> DebouncerView {
    match event {
        DebounceEvent::Changed => DebouncerView { pending: true, ..d },
        DebounceEvent::TimerFired => DebouncerView { timer_armed: false, ..d },
    }
}

/// Collects layout changes into at most one write per debounce window.
#[derive(Debug)]
pub struct LayoutDebouncer {
    pending: bool,
    last_write: Option<Instant>,
    timer_armed: bool,
}

impl View for LayoutDebouncer {
    type V = DebouncerView;

    closed spec fn view(&self) -> DebouncerView {
        DebouncerView {
            pending: self.pending,
            written: self.last_write is Some,
            timer_armed: self.timer_armed,
        }
    }
}

impl LayoutDebouncer {
    /// Nothing pending, nothing written, no timer.
    pub fn new() -> (r: Self)
        ensures
            r@ == (DebouncerView { pending: false, written: false, timer_armed: false }),
    {
        LayoutDebouncer { pending: false, last_write: None, timer_armed: false }
    }

    /// Notes that a write is due.
    pub fn mark_dirty(&mut self)
        ensures
            final(self)@ == (DebouncerView { pending: true, ..old(self)@ }),
    {
        self.pending = true;
    }

    /// Whether to write now: only when a write is pending, and then at once
    /// if nothing was written yet; otherwise as the clock says (see
    /// [`flush_due`]).
    pub fn should_flush(&self) -> (r: bool)
        ensures
            r ==> self@.pending,
            self@.pending && !self@.written ==> r,
    {
        let since = match &self.last_write {
            Some(instant) => Some(whole_millis(&time_since(instant))),
            None => None,
        };
        flush_due(self.pending, since)
    }

    /// Notes the event and says what to do. A change is noted as pending;
    /// then the write is made now when it is due, and otherwise, while one
    /// is pending and no timer is armed, a timer of the debounce window is
    /// armed, so that the first change after an idle phase starts a timer
    /// and later changes within the window are written together.
    pub fn on_event(&mut self, event: DebounceEvent) -> (r: DebounceAction)
        ensures
            ({
                let n = noted(old(self)@, event);
                &&& r is WriteNow ==> final(self)@ == n && n.pending
                &&& n.pending && !n.written ==> r is WriteNow
                &&& r is ArmTimer ==> r == DebounceAction::ArmTimer(DEBOUNCE_WINDOW_MILLIS)
                    && n.pending && !n.timer_armed && final(self)@ == (DebouncerView {
                    timer_armed: true,
                    ..n
                })
                &&& r is Wait ==> final(self)@ == n && (!n.pending || n.timer_armed)
            }),
            final(self)@.pending ==> r is WriteNow || final(self)@.timer_armed,
    {
        match event {
            DebounceEvent::Changed => self.pending = true,
            DebounceEvent::TimerFired => self.timer_armed = false,
        }
        if self.should_flush() {
            DebounceAction::WriteNow
        } else if self.pending && !self.timer_armed {
            self.timer_armed = true;
            DebounceAction::ArmTimer(DEBOUNCE_WINDOW_MILLIS)
        } else {
            DebounceAction::Wait
        }
    }

    /// Notes that the pending write was made, now.
    pub fn mark_flushed(&mut self)
        ensures
            final(self)@ == (DebouncerView { pending: false, written: true, ..old(self)@ }),
    {
        self.pending = false;
        self.last_write = Some(clock_now());
    }

    /// Asks for a write regardless of the window (at shutdown).
    pub fn force_flush(&mut self)
        ensures
            final(self)@ == (DebouncerView { pending: true, written: false, ..old(self)@ }),
    {
        self.pending = true;
        self.last_write = None;
    }
}

/// After a write, no further write is due until a change is marked; after
/// a forced flush, a write is due at once, whatever the clock says; and a
/// pending write is due once the debounce window has passed since the last
/// write, so the timer armed when the change came finds it due.
pub proof fn law_flush_after_marks(since_last_write: Option<u128>, millis: u128)
    ensures
        !flush_is_due(false, since_last_write),
        flush_is_due(true, None),
        millis >= DEBOUNCE_WINDOW_MILLIS ==> flush_is_due(true, Some(millis)),
        millis < DEBOUNCE_WINDOW_MILLIS ==> !flush_is_due(true, Some(millis)),
{
}

} // verus!
