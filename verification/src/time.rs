//! Days of the week, instants within a seven-day cycle, and weekly meeting
//! windows that may wrap around the end of the week.

use crate::clock::local_clock;
use crate::decimal::{decimal, push_decimal};
use crate::location::Location;
use crate::text::{chars_of, has_prefix, is_text, lower, to_lower, trim, trimmed};
use vstd::prelude::*;
use vstd::std_specs::convert::FromSpec;
use vstd::string::StringExecFns;

verus! {

/// Seconds in the weekly cycle.
pub const SECONDS_PER_WEEK: u32 = 604800;

/// A day of the weekly cycle, or `Async` for "no fixed weekday".
#[derive(Debug, Clone, Copy, PartialEq, Eq, Structural)]
pub enum Day {
    Async,
    Monday,
    Tuesday,
    Wednesday,
    Thursday,
    Friday,
    Saturday,
    Sunday,
}

impl Default for Day {
    fn default() -> (d: Day)
        ensures
            d == Day::Async,
    {
        Day::Async
    }
}

/// What a piece of text names as a day. The text is lower-cased and trimmed;
/// `sa`, `sat`, `saturday` and `su`, `sun`, `sunday` are taken first, then any
/// prefix of `monday`, `tuesday`, `wednesday`, `thursday`, `friday`, in that
/// order. Blank text is a prefix of `monday` and so names Monday; a lone `s`
/// names nothing.
pub open spec fn parse_day(s: Seq<char>) -> Option<Day> {
    let d = trim(lower(s));
    if d == "sa"@ || d == "sat"@ || d == "saturday"@ {
        Some(Day::Saturday)
    } else if d == "su"@ || d == "sun"@ || d == "sunday"@ {
        Some(Day::Sunday)
    } else if d.is_prefix_of("monday"@) {
        Some(Day::Monday)
    } else if d.is_prefix_of("tuesday"@) {
        Some(Day::Tuesday)
    } else if d.is_prefix_of("wednesday"@) {
        Some(Day::Wednesday)
    } else if d.is_prefix_of("thursday"@) {
        Some(Day::Thursday)
    } else if d.is_prefix_of("friday"@) {
        Some(Day::Friday)
    } else {
        None
    }
}

/// The message for text that names no day.
pub open spec fn day_error(s: Seq<char>) -> Seq<char> {
    "Unable to parse date from input: \""@ + s + "\""@
}

impl Day {
    /// The cyclic successor: Sunday wraps to Monday, and `Async` stays `Async`.
    pub open spec fn spec_tomorrow(self) -> Day {
        match self {
            Day::Async => Day::Async,
            Day::Monday => Day::Tuesday,
            Day::Tuesday => Day::Wednesday,
            Day::Wednesday => Day::Thursday,
            Day::Thursday => Day::Friday,
            Day::Friday => Day::Saturday,
            Day::Saturday => Day::Sunday,
            Day::Sunday => Day::Monday,
        }
    }

    /// The day after this one in the weekly cycle.
    #[verifier::when_used_as_spec(spec_tomorrow)]
    pub fn tomorrow(self) -> (next: Day)
        ensures
            next == self.spec_tomorrow(),
    {
        match self {
            Day::Async => Day::Async,
            Day::Monday => Day::Tuesday,
            Day::Tuesday => Day::Wednesday,
            Day::Wednesday => Day::Thursday,
            Day::Thursday => Day::Friday,
            Day::Friday => Day::Saturday,
            Day::Saturday => Day::Sunday,
            Day::Sunday => Day::Monday,
        }
    }

    /// The position of the day in the week, Monday being 1 and Sunday 7.
    /// `Async` has position 0.
    pub open spec fn spec_ordinal(self) -> nat {
        match self {
            Day::Async => 0,
            Day::Monday => 1,
            Day::Tuesday => 2,
            Day::Wednesday => 3,
            Day::Thursday => 4,
            Day::Friday => 5,
            Day::Saturday => 6,
            Day::Sunday => 7,
        }
    }

    /// The position of the day in the week, Monday being 1 and Sunday 7.
    pub fn ordinal(self) -> (n: u32)
        ensures
            n == self.spec_ordinal(),
    {
        match self {
            Day::Async => 0,
            Day::Monday => 1,
            Day::Tuesday => 2,
            Day::Wednesday => 3,
            Day::Thursday => 4,
            Day::Friday => 5,
            Day::Saturday => 6,
            Day::Sunday => 7,
        }
    }

    /// The English name of the day; `Async` reads "Asynchronous".
    pub open spec fn spec_name(self) -> Seq<char> {
        match self {
            Day::Async => "Asynchronous"@,
            Day::Monday => "Monday"@,
            Day::Tuesday => "Tuesday"@,
            Day::Wednesday => "Wednesday"@,
            Day::Thursday => "Thursday"@,
            Day::Friday => "Friday"@,
            Day::Saturday => "Saturday"@,
            Day::Sunday => "Sunday"@,
        }
    }

    /// The English name of the day.
    pub fn name(self) -> (s: &'static str)
        ensures
            s@ == self.spec_name(),
    {
        match self {
            Day::Async => "Asynchronous",
            Day::Monday => "Monday",
            Day::Tuesday => "Tuesday",
            Day::Wednesday => "Wednesday",
            Day::Thursday => "Thursday",
            Day::Friday => "Friday",
            Day::Saturday => "Saturday",
            Day::Sunday => "Sunday",
        }
    }

    /// The English name of the day, as an owned string.
    pub fn to_string(&self) -> (s: String)
        ensures
            s@ == self.spec_name(),
    {
        String::from_str(self.name())
    }

    /// Reads a day from what a user typed: a full name, or an abbreviation
    /// of it, in any letter case and with blanks around it.
    pub fn from_str(s: &str) -> (r: Result<Day, String>)
        ensures
            match r {
                Ok(day) => parse_day(s@) == Some(day),
                Err(msg) => parse_day(s@) is None && msg@ == day_error(s@),
            },
    {
        let d = trimmed(&to_lower(&chars_of(s)));
        if is_text(&d, "sa") || is_text(&d, "sat") || is_text(&d, "saturday") {
            Ok(Day::Saturday)
        } else if is_text(&d, "su") || is_text(&d, "sun") || is_text(&d, "sunday") {
            Ok(Day::Sunday)
        } else if has_prefix(&chars_of("monday"), &d) {
            Ok(Day::Monday)
        } else if has_prefix(&chars_of("tuesday"), &d) {
            Ok(Day::Tuesday)
        } else if has_prefix(&chars_of("wednesday"), &d) {
            Ok(Day::Wednesday)
        } else if has_prefix(&chars_of("thursday"), &d) {
            Ok(Day::Thursday)
        } else if has_prefix(&chars_of("friday"), &d) {
            Ok(Day::Friday)
        } else {
            let mut msg = String::from_str("Unable to parse date from input: \"");
            msg.append(s);
            msg.append("\"");
            Err(msg)
        }
    }
}

impl core::str::FromStr for Day {
    type Err = String;

    /// Reads a day as the inherent `Day::from_str` does.
    fn from_str(s: &str) -> (r: Result<Day, String>)
        ensures
            match r {
                Ok(day) => parse_day(s@) == Some(day),
                Err(msg) => parse_day(s@) is None && msg@ == day_error(s@),
            },
    {
        Day::from_str(s)
    }
}

/// `tomorrow` sends Sunday to Monday and leaves `Async` where it is; on the
/// seven weekdays it is one-to-one and onto, and never yields `Async`.
pub proof fn lemma_tomorrow_cycles_the_week(a: Day, b: Day)
    ensures
        Day::Sunday.tomorrow() == Day::Monday,
        Day::Async.tomorrow() == Day::Async,
        a != Day::Async ==> a.tomorrow() != Day::Async,
        a.tomorrow() == b.tomorrow() ==> a == b,
        b != Day::Async ==> exists|c: Day| c != Day::Async && #[trigger] c.tomorrow() == b,
{
    let before = match b {
        Day::Async => Day::Async,
        Day::Monday => Day::Sunday,
        Day::Tuesday => Day::Monday,
        Day::Wednesday => Day::Tuesday,
        Day::Thursday => Day::Wednesday,
        Day::Friday => Day::Thursday,
        Day::Saturday => Day::Friday,
        Day::Sunday => Day::Saturday,
    };
    assert(before.tomorrow() == b);
}

/// The text of a number in at least two digits: a zero is put before a
/// single digit.
pub open spec fn two_digits(n: nat) -> Seq<char> {
    if n < 10 {
        seq!['0'] + decimal(n)
    } else {
        decimal(n)
    }
}

fn push_two_digits(out: &mut String, n: u8)
    ensures
        final(out)@ == old(out)@ + two_digits(n as nat),
{
    if n < 10 {
        out.push('0');
    }
    let ghost mid = out@;
    push_decimal(out, n as u32);
    proof {
        if n < 10 {
            assert(mid + decimal(n as nat) == old(out)@ + (seq!['0'] + decimal(n as nat)));
        }
    }
}

/// An instant within the weekly cycle, or "any time" when `day` is `Async`.
#[derive(Debug, Clone, Copy, PartialEq, Eq, Structural)]
pub struct Time {
    pub day: Day,
    pub hour: u8,
    pub minute: u8,
    pub second: u8,
}

impl Default for Time {
    fn default() -> (t: Time)
        ensures
            t == (Time { day: Day::Async, hour: 0, minute: 0, second: 0 }),
    {
        Time { day: Day::Async, hour: 0, minute: 0, second: 0 }
    }
}

impl Time {
    /// Whether the fields are those of a clock reading: hour below 24,
    /// minute and second below 60.
    pub open spec fn is_clock_time(self) -> bool {
        self.hour < 24 && self.minute < 60 && self.second < 60
    }

    /// Seconds since the week began on Monday at midnight. `Async` counts as
    /// Monday here, so callers look at the day before they rely on the number.
    pub open spec fn absolute_seconds(self) -> nat {
        let day_index: nat = if self.day == Day::Async {
            0
        } else {
            (self.day.spec_ordinal() - 1) as nat
        };
        day_index * 86400 + self.hour as nat * 3600 + self.minute as nat * 60 + self.second as nat
    }

    /// Whether this instant lies in the window from `start` to `end`, both
    /// ends included. An `Async` day anywhere makes it so. A window whose
    /// start comes after its end in the week wraps around the week's end.
    pub open spec fn spec_is_between(self, start: Time, end: Time) -> bool {
        if self.day == Day::Async || start.day == Day::Async || end.day == Day::Async {
            true
        } else if start.absolute_seconds() <= end.absolute_seconds() {
            start.absolute_seconds() <= self.absolute_seconds() <= end.absolute_seconds()
        } else {
            self.absolute_seconds() >= start.absolute_seconds() || self.absolute_seconds()
                <= end.absolute_seconds()
        }
    }

    /// `HH:MM:SS`, each part in at least two digits.
    pub open spec fn hms_text(self) -> Seq<char> {
        two_digits(self.hour as nat) + seq![':'] + two_digits(self.minute as nat) + seq![':']
            + two_digits(self.second as nat)
    }

    /// The time of day and the day, as in `09:05:00 on Monday`.
    pub open spec fn text(self) -> Seq<char> {
        self.hms_text() + " on "@ + self.day.spec_name()
    }

    /// The current local weekday and time of day.
    pub fn now() -> (t: Time)
        ensures
            t.day != Day::Async,
            t.is_clock_time(),
    {
        let (day, hour, minute, second) = local_clock();
        Time { day, hour: hour as u8, minute: minute as u8, second: second as u8 }
    }

    /// Seconds since the week began on Monday at midnight.
    pub fn to_absolute_seconds(&self) -> (secs: u32)
        ensures
            secs == self.absolute_seconds(),
            self.is_clock_time() ==> secs < SECONDS_PER_WEEK,
    {
        let ordinal: u32 = self.day.ordinal();
        let day: u32 = if ordinal == 0 {
            0
        } else {
            ordinal - 1
        };
        let hour: u32 = self.hour as u32;
        let minute: u32 = self.minute as u32;
        let second: u32 = self.second as u32;
        assert(day <= 6);
        86400 * day + 3600 * hour + 60 * minute + second
    }

    /// Whether this instant lies in the window from `start` to `end`.
    pub fn is_between(&self, start: &Time, end: &Time) -> (inside: bool)
        ensures
            inside == self.spec_is_between(*start, *end),
            (self.day == Day::Async || start.day == Day::Async || end.day == Day::Async)
                ==> inside,
            (self.day != Day::Async && start.day != Day::Async && end.day != Day::Async
                && start.absolute_seconds() <= end.absolute_seconds()) ==> (inside <==> (
            start.absolute_seconds() <= self.absolute_seconds() && self.absolute_seconds()
                <= end.absolute_seconds())),
            (self.day != Day::Async && start.day != Day::Async && end.day != Day::Async
                && start.absolute_seconds() > end.absolute_seconds()) ==> (inside <==> (
            self.absolute_seconds() >= start.absolute_seconds() || self.absolute_seconds()
                <= end.absolute_seconds())),
    {
        if self.day == Day::Async || start.day == Day::Async || end.day == Day::Async {
            return true;
        }
        let curr_secs = self.to_absolute_seconds();
        let start_secs = start.to_absolute_seconds();
        let end_secs = end.to_absolute_seconds();
        if start_secs <= end_secs {
            curr_secs >= start_secs && curr_secs <= end_secs
        } else {
            curr_secs >= start_secs || curr_secs <= end_secs
        }
    }

    /// The time of day as `HH:MM:SS`.
    pub fn hms_string(&self) -> (s: String)
        ensures
            s@ == self.hms_text(),
    {
        let mut out = String::new();
        push_two_digits(&mut out, self.hour);
        out.push(':');
        push_two_digits(&mut out, self.minute);
        out.push(':');
        push_two_digits(&mut out, self.second);
        assert(out@ =~= self.hms_text());
        out
    }

    /// Hour, minute and second.
    pub fn get_hms(&self) -> (hms: (u8, u8, u8))
        ensures
            hms == (self.hour, self.minute, self.second),
    {
        (self.hour, self.minute, self.second)
    }

    /// The time of day followed by the day's name.
    pub fn to_string(&self) -> (s: String)
        ensures
            s@ == self.text(),
    {
        let mut out = self.hms_string();
        out.append(" on ");
        out.append(self.day.name());
        out
    }
}

/// One weekly meeting: when it starts, when it ends, and where.
#[derive(Debug, Clone, PartialEq)]
pub struct ClassTime {
    pub start: Time,
    pub end: Time,
    pub location: Location,
}

impl Default for ClassTime {
    fn default() -> (c: ClassTime)
        ensures
            c.start == (Time { day: Day::Async, hour: 0, minute: 0, second: 0 }),
            c.end == (Time { day: Day::Async, hour: 0, minute: 0, second: 0 }),
            c.location.campus@.len() == 0,
            c.location.building@.len() == 0,
            c.location.room@.len() == 0,
    {
        ClassTime { start: Time::default(), end: Time::default(), location: Location::default() }
    }
}

impl From<(Time, Time, Location)> for ClassTime {
    fn from(value: (Time, Time, Location)) -> (c: ClassTime) {
        ClassTime { start: value.0, end: value.1, location: value.2 }
    }
}

impl vstd::std_specs::convert::FromSpecImpl<(Time, Time, Location)> for ClassTime {
    open spec fn obeys_from_spec() -> bool {
        true
    }

    open spec fn from_spec(value: (Time, Time, Location)) -> ClassTime {
        ClassTime { start: value.0, end: value.1, location: value.2 }
    }
}

impl ClassTime {
    /// Whether the meeting is in session at `time`.
    pub open spec fn spec_includes(&self, time: Time) -> bool {
        time.spec_is_between(self.start, self.end)
    }

    /// Whether the meeting is in session at `time`.
    pub fn includes(&self, time: Time) -> (inside: bool)
        ensures
            inside == self.spec_includes(time),
    {
        time.is_between(&self.start, &self.end)
    }

    /// This meeting moved to `day`: it starts on `day`, and ends on `day` too
    /// unless the meeting runs past midnight, in which case it ends the day
    /// after. Times of day and place are kept.
    pub fn moved_to(self, day: Day) -> (moved: ClassTime)
        ensures
            moved.start == (Time { day, ..self.start }),
            moved.end == (Time {
                day: if self.start.day != self.end.day {
                    day.tomorrow()
                } else {
                    day
                },
                ..self.end
            }),
            moved.location == self.location,
    {
        let end_day = if self.start.day != self.end.day {
            day.tomorrow()
        } else {
            day
        };
        ClassTime {
            start: Time { day, ..self.start },
            end: Time { day: end_day, ..self.end },
            location: self.location,
        }
    }
}

/// When a class meets: at no fixed time, or at one or more weekly meetings.
#[derive(Debug, Clone)]
pub enum Times {
    Async,
    At(Vec<ClassTime>),
}

impl Default for Times {
    fn default() -> (t: Times)
        ensures
            t is Async,
    {
        Times::Async
    }
}

impl From<Vec<ClassTime>> for Times {
    fn from(value: Vec<ClassTime>) -> (t: Times) {
        if value.is_empty() {
            Times::Async
        } else {
            Times::At(value)
        }
    }
}

impl vstd::std_specs::convert::FromSpecImpl<Vec<ClassTime>> for Times {
    open spec fn obeys_from_spec() -> bool {
        true
    }

    open spec fn from_spec(value: Vec<ClassTime>) -> Times {
        if value@.len() == 0 {
            Times::Async
        } else {
            Times::At(value)
        }
    }
}

/// A list of meetings turned into `Times` is `Async` when it is empty, and
/// otherwise holds that very list.
pub proof fn lemma_times_from_list_is_well_formed(list: Vec<ClassTime>)
    ensures
        Times::from_spec(list).well_formed(),
        Times::from_spec(list).spec_len() == list@.len(),
        list@.len() > 0 ==> Times::from_spec(list) == Times::At(list),
{
}

impl Times {
    /// A list of meetings is never empty: no meetings at all is `Async`.
    pub open spec fn well_formed(&self) -> bool {
        match self {
            Times::Async => true,
            Times::At(times) => times@.len() > 0,
        }
    }

    /// The number of weekly meetings; none for `Async`.
    pub open spec fn spec_len(&self) -> nat {
        match self {
            Times::Async => 0,
            Times::At(times) => times@.len(),
        }
    }

    /// The number of weekly meetings; none for `Async`.
    pub fn len(&self) -> (n: usize)
        ensures
            n == self.spec_len(),
    {
        match self {
            Times::Async => 0,
            Times::At(times) => times.len(),
        }
    }

    /// Whether some meeting is in session at `time`. `Async` never is.
    pub open spec fn spec_active_at(&self, time: Time) -> bool {
        match self {
            Times::Async => false,
            Times::At(times) => any_includes(times@, time),
        }
    }

    /// Whether some meeting is in session at `time`.
    pub fn active_at(&self, time: Time) -> (active: bool)
        ensures
            active == self.spec_active_at(time),
    {
        match self {
            Times::Async => false,
            Times::At(times) => some_meeting_includes(times, time),
        }
    }
}

/// Whether one of `times` is in session at `time`.
pub open spec fn any_includes(times: Seq<ClassTime>, time: Time) -> bool {
    exists|i: int| 0 <= i < times.len() && (#[trigger] times[i]).spec_includes(time)
}

fn some_meeting_includes(times: &Vec<ClassTime>, time: Time) -> (found: bool)
    ensures
        found == any_includes(times@, time),
{
    let mut i: usize = 0;
    while i < times.len()
        invariant
            i <= times.len(),
            forall|k: int| 0 <= k < i ==> !(#[trigger] times@[k]).spec_includes(time),
        decreases times.len() - i,
    {
        if times[i].includes(time) {
            assert(times@[i as int].spec_includes(time));
            return true;
        }
        i += 1;
    }
    false
}

} // verus!
