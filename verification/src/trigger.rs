//! Trigger clock: decides whether the current moment falls inside the
//! daily firing window. The window is a fixed local time of day — hour
//! 15, minute 0, and any second below 11 — deliberately wider than the
//! polling cadence, so a loop that looks at the clock only every few
//! seconds cannot miss it. The decision itself is a pure function of a
//! wall-clock sample; only reading the clock goes through an outside
//! call.

use chrono::Timelike;
use vstd::prelude::*;

verus! {

/// Local hour of day at which the trigger fires.
pub const FIRE_HOUR: u32 = 15;

/// Local minute at which the trigger fires.
pub const FIRE_MINUTE: u32 = 0;

/// Width of the firing window in seconds: the trigger holds for seconds
/// 0 through 10 of the scheduled minute.
pub const FIRE_WINDOW_SECONDS: u32 = 11;

/// The fixed zone the schedule is stated in, as whole hours east of UTC.
pub const UTC_OFFSET_HOURS: u32 = 8;

/// One reading of the wall clock, in the fixed local zone.
#[derive(Debug, Clone, Copy, PartialEq, Eq, Structural)]
pub struct ClockTime {
    pub hour: u32,
    pub minute: u32,
    pub second: u32,
}

impl ClockTime {
    /// A plausible time of day.
    pub open spec fn wf(&self) -> bool {
        self.hour < 24 && self.minute < 60 && self.second < 60
    }
}

/// The firing window: hour and minute match the schedule and the second
/// lies inside the window.
pub open spec fn spec_fires(hour: int, minute: int, second: int) -> bool {
    hour == FIRE_HOUR && minute == FIRE_MINUTE && second < FIRE_WINDOW_SECONDS
}

/// Does the sampled moment fall inside the daily firing window?
pub fn trigger_fires(t: &ClockTime) -> (r: bool)
    ensures
        r == spec_fires(t.hour as int, t.minute as int, t.second as int),
{
    t.hour == FIRE_HOUR && t.minute == FIRE_MINUTE && t.second < FIRE_WINDOW_SECONDS
}

/// Convert a UTC reading to the fixed local zone: the hour shifts east by
/// the offset and wraps at midnight; minute and second are untouched.
pub fn local_of_utc(hour: u32, minute: u32, second: u32) -> (t: ClockTime)
    requires
        hour < 24,
        minute < 60,
        second < 60,
    ensures
        t.hour == (hour + UTC_OFFSET_HOURS) % 24,
        t.minute == minute,
        t.second == second,
        t.wf(),
{
    ClockTime { hour: (hour + UTC_OFFSET_HOURS) % 24, minute, second }
}

/// Relies on `chrono::Utc::now` and the `chrono::Timelike` accessors,
/// whose documented ranges are hour 0..=23, minute 0..=59, second 0..=59.
/// Nothing more can be said of a reading of the real clock.
#[verifier::external_body]
fn utc_clock_now() -> (t: (u32, u32, u32))
    ensures
        t.0 < 24,
        t.1 < 60,
        t.2 < 60,
{
    let now = chrono::Utc::now();
    (now.hour(), now.minute(), now.second())
}

/// Sample the wall clock in the fixed local zone.
pub fn local_clock_now() -> (t: ClockTime)
    ensures
        t.wf(),
{
    let (h, m, s) = utc_clock_now();
    local_of_utc(h, m, s)
}

/// Read the clock and evaluate the trigger: the decision is exactly the
/// firing predicate on the returned sample.
pub fn trigger_now() -> (r: (bool, ClockTime))
    ensures
        r.1.wf(),
        r.0 == spec_fires(r.1.hour as int, r.1.minute as int, r.1.second as int),
{
    let t = local_clock_now();
    let fire = trigger_fires(&t);
    (fire, t)
}

} // verus!
