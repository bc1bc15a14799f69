//! What the answers to the set-up questions mean. Asking and reading is
//! left to the caller; these functions decide.

use crate::text::{chars_of, is_text, lower, split, split_on, string_of, to_lower, trim, trimmed};
use crate::time::{day_error, parse_day, Day, Time};
use vstd::prelude::*;

verus! {

/// Whether `s` begins with the character `c`.
pub open spec fn begins_with(s: Seq<char>, c: char) -> bool {
    s.len() > 0 && s[0] == c
}

/// Whether an answer to a yes-or-no question whose default is yes accepts:
/// it is empty, or begins with `y` in either letter case.
pub fn accepts_by_default(answer: &str) -> (yes: bool)
    ensures
        yes == (answer@.len() == 0 || begins_with(lower(answer@), 'y')),
{
    let chars = to_lower(&chars_of(answer));
    chars.len() == 0 || chars[0] == 'y'
}

/// Whether an answer to a yes-or-no question whose default is no accepts:
/// it begins with `y` in either letter case.
pub fn accepts(answer: &str) -> (yes: bool)
    ensures
        yes == begins_with(lower(answer@), 'y'),
{
    let chars = to_lower(&chars_of(answer));
    chars.len() > 0 && chars[0] == 'y'
}

/// Whether an answer asks to go on: it is empty, `y` or `Y`, and nothing
/// else.
pub fn continues(answer: &str) -> (yes: bool)
    ensures
        yes == (answer@.len() == 0 || answer@ == "y"@ || answer@ == "Y"@),
{
    let chars = chars_of(answer);
    chars.len() == 0 || is_text(&chars, "y") || is_text(&chars, "Y")
}

/// Whether an answer declines a question that must be confirmed: it is
/// empty, or, trimmed, begins with `n` in either letter case.
pub fn declines_by_default(answer: &str) -> (no: bool)
    ensures
        no == (answer@.len() == 0 || begins_with(lower(trim(answer@)), 'n')),
{
    let chars = chars_of(answer);
    if chars.len() == 0 {
        return true;
    }
    let cleaned = to_lower(&trimmed(&chars));
    cleaned.len() > 0 && cleaned[0] == 'n'
}

/// Whether a text holds nothing but white space.
pub fn is_blank(text: &str) -> (blank: bool)
    ensures
        blank == (trim(text@).len() == 0),
{
    trimmed(&chars_of(text)).len() == 0
}

/// Whether a meeting that starts at `start` and ends at `hour`:`minute`
/// must end on a later day: its end is earlier on the clock than its start,
/// seconds aside.
pub fn ends_before_start(start: &Time, hour: u8, minute: u8) -> (wraps: bool)
    ensures
        wraps == (hour < start.hour || (hour == start.hour && minute < start.minute)),
{
    hour < start.hour || (hour == start.hour && minute < start.minute)
}

/// When a meeting ends, given when it starts and the time of day at which
/// it ends.
#[derive(Debug, Clone, Copy, PartialEq, Eq, Structural)]
pub enum MeetingEnd {
    /// The meeting ends on the day on which it starts.
    SameDay(Time),
    /// The end is earlier on the clock than the start, so the meeting ends
    /// the day after; that is for the user to confirm.
    NextDay(Time),
}

/// The end of a meeting that starts at `start` and ends at the time of day
/// `hms`: on the day of the start, or on the day after when the end is
/// earlier on the clock than the start.
pub fn end_of_meeting(start: &Time, hms: (u8, u8, u8)) -> (end: MeetingEnd)
    ensures
        end == (if hms.0 < start.hour || (hms.0 == start.hour && hms.1 < start.minute) {
            MeetingEnd::NextDay(
                Time { day: start.day.tomorrow(), hour: hms.0, minute: hms.1, second: hms.2 },
            )
        } else {
            MeetingEnd::SameDay(
                Time { day: start.day, hour: hms.0, minute: hms.1, second: hms.2 },
            )
        }),
{
    if ends_before_start(start, hms.0, hms.1) {
        MeetingEnd::NextDay(
            Time { day: start.day.tomorrow(), hour: hms.0, minute: hms.1, second: hms.2 },
        )
    } else {
        MeetingEnd::SameDay(Time { day: start.day, hour: hms.0, minute: hms.1, second: hms.2 })
    }
}

/// Reads a list of days separated by `/`, as in `M/W/F`. Every piece must
/// name a day; the first that does not gives the error.
pub fn parse_days(input: &str) -> (r: Result<Vec<Day>, String>)
    ensures
        match r {
            Ok(days) => {
                &&& days@.len() == split(input@, '/').len()
                &&& forall|i: int|
                    0 <= i < days@.len() ==> parse_day(#[trigger] split(input@, '/')[i]) == Some(
                        days@[i],
                    )
            },
            Err(msg) => exists|bad: int|
                {
                    &&& 0 <= bad < split(input@, '/').len()
                    &&& parse_day(#[trigger] split(input@, '/')[bad]) is None
                    &&& msg@ == day_error(split(input@, '/')[bad])
                    &&& forall|i: int|
                        0 <= i < bad ==> parse_day(#[trigger] split(input@, '/')[i]) is Some
                },
        },
{
    let pieces = split_on(&chars_of(input), '/');
    let mut days: Vec<Day> = Vec::new();
    let mut i: usize = 0;
    while i < pieces.len()
        invariant
            i <= pieces.len(),
            pieces.len() == split(input@, '/').len(),
            forall|k: int|
                0 <= k < pieces.len() ==> (#[trigger] pieces@[k])@ == split(input@, '/')[k],
            days@.len() == i,
            forall|k: int|
                0 <= k < i ==> parse_day(#[trigger] split(input@, '/')[k]) == Some(days@[k]),
        decreases pieces.len() - i,
    {
        let piece = string_of(&pieces[i]);
        assert(piece@ == split(input@, '/')[i as int]);
        match Day::from_str(piece.as_str()) {
            Ok(day) => {
                days.push(day);
            },
            Err(msg) => {
                return Err(msg);
            },
        }
        i += 1;
    }
    Ok(days)
}

} // verus!
