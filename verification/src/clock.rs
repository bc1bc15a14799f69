//! The local wall clock, read through `chrono`.

use crate::time::Day;
use chrono::{Datelike, Timelike};
use vstd::prelude::*;

verus! {

/// Reads the local time with `chrono::Local::now` and takes it apart with
/// `Datelike::weekday`, `Timelike::hour`, `Timelike::minute` and
/// `Timelike::second`. The claim is only what chrono documents of every
/// reading: the weekday is one of the seven, the hour is below 24, and the
/// minute and the second are below 60 (a leap second reads as 59).
#[verifier::external_body]
pub(crate) fn local_clock() -> (r: (Day, u32, u32, u32))
    ensures
        r.0 != Day::Async,
        r.1 < 24,
        r.2 < 60,
        r.3 < 60,
{
    let now = chrono::Local::now();
    let day = match now.weekday() {
        chrono::Weekday::Mon => Day::Monday,
        chrono::Weekday::Tue => Day::Tuesday,
        chrono::Weekday::Wed => Day::Wednesday,
        chrono::Weekday::Thu => Day::Thursday,
        chrono::Weekday::Fri => Day::Friday,
        chrono::Weekday::Sat => Day::Saturday,
        chrono::Weekday::Sun => Day::Sunday,
    };
    (day, now.hour(), now.minute(), now.second())
}

/// The local calendar date: `chrono::Local::now`, written out by
/// `DateTime::format` with the pattern `%Y-%m-%d`. Nothing is claimed of the
/// text, which depends on the clock and the time zone.
#[verifier::external_body]
pub(crate) fn local_date() -> (date: String) {
    chrono::Local::now().format("%Y-%m-%d").to_string()
}

} // verus!
