//! The one clock read of the scheduler loop.

use vstd::prelude::*;

use crate::time::Trigger;
use crate::time::Weekday;
use chrono::Datelike;
use chrono::Timelike;

verus! {

/// Relies on chrono::Local::now and the Datelike/Timelike accessors:
/// `weekday` is the local day of the week, and `hour` and `minute` are
/// documented to lie in 0..=23 and 0..=59. Seconds are discarded, so
/// the observation is truncated to the whole minute. The result
/// depends on the wall clock, so only well-formedness is promised.
#[verifier::external_body]
pub(crate) fn observe_now() -> (t: Trigger)
    ensures
        t.wf(),
{
    let now = chrono::Local::now().naive_local();
    let day = match now.date().weekday() {
        chrono::Weekday::Mon => Weekday::Mon,
        chrono::Weekday::Tue => Weekday::Tue,
        chrono::Weekday::Wed => Weekday::Wed,
        chrono::Weekday::Thu => Weekday::Thu,
        chrono::Weekday::Fri => Weekday::Fri,
        chrono::Weekday::Sat => Weekday::Sat,
        chrono::Weekday::Sun => Weekday::Sun,
    };
    Trigger { day, hour: now.time().hour() as u8, minute: now.time().minute() as u8 }
}

} // verus!
