//! Weekdays and minute-precision weekly triggers.

use vstd::prelude::*;

verus! {

/// A day of the week.
#[derive(Clone, Copy, Debug, PartialEq, Eq, Structural)]
pub enum Weekday {
    Mon,
    Tue,
    Wed,
    Thu,
    Fri,
    Sat,
    Sun,
}

/// A weekly trigger: a weekday together with a time of day, kept at
/// minute resolution. Two triggers are interchangeable exactly when
/// all three fields are equal; seconds play no part.
#[derive(Clone, Copy, Debug, PartialEq, Eq, Structural)]
pub struct Trigger {
    pub day: Weekday,
    pub hour: u8,
    pub minute: u8,
}

impl Trigger {
    /// A trigger is well formed when its time of day exists on a clock.
    pub open spec fn wf(self) -> bool {
        self.hour < 24 && self.minute < 60
    }

    pub fn new(day: Weekday, hour: u8, minute: u8) -> (t: Trigger)
        requires
            hour < 24,
            minute < 60,
        ensures
            t == (Trigger { day, hour, minute }),
            t.wf(),
    {
        Trigger { day, hour, minute }
    }
}

/// The weekday at a given position in the fixed Monday-first ordering
/// that the selection surface presents.
pub open spec fn day_of_index(i: int) -> Weekday {
    if i == 0 {
        Weekday::Mon
    } else if i == 1 {
        Weekday::Tue
    } else if i == 2 {
        Weekday::Wed
    } else if i == 3 {
        Weekday::Thu
    } else if i == 4 {
        Weekday::Fri
    } else if i == 5 {
        Weekday::Sat
    } else {
        Weekday::Sun
    }
}

/// Turns a selection index into a weekday, Monday first.
pub fn usize_to_day(i: usize) -> (d: Weekday)
    requires
        i < 7,
    ensures
        d == day_of_index(i as int),
{
    match i {
        0 => Weekday::Mon,
        1 => Weekday::Tue,
        2 => Weekday::Wed,
        3 => Weekday::Thu,
        4 => Weekday::Fri,
        5 => Weekday::Sat,
        _ => Weekday::Sun,
    }
}

} // verus!
