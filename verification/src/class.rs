//! A class: its name, who teaches it, and when it meets.

use crate::time::{ClassTime, Times};
use vstd::prelude::*;
use vstd::string::StringExecFns;

verus! {

/// One line of a class listing: a single weekly meeting, ending in a newline.
pub open spec fn meeting_line(name: Seq<char>, professor: Seq<char>, time: ClassTime) -> Seq<
    char,
> {
    "\t"@ + name + " ("@ + professor + ") on "@ + time.start.day.spec_name() + ", from "@
        + time.start.hms_text() + " to "@ + time.end.hms_text() + ", at "@ + time.location.campus@
        + ", "@ + time.location.building@ + " (Room "@ + time.location.room@ + ")\n"@
}

/// The listing lines of all the meetings of a class, in order.
pub open spec fn meeting_lines(
    name: Seq<char>,
    professor: Seq<char>,
    times: Seq<ClassTime>,
) -> Seq<char>
    decreases times.len(),
{
    if times.len() == 0 {
        Seq::<char>::empty()
    } else {
        meeting_lines(name, professor, times.drop_last()) + meeting_line(
            name,
            professor,
            times.last(),
        )
    }
}

/// The listing of a class: one line per meeting, or a single line without a
/// newline for a class that meets at no fixed time.
pub open spec fn class_listing(name: Seq<char>, professor: Seq<char>, times: Times) -> Seq<char> {
    match times {
        Times::Async => "\t"@ + name + " ("@ + professor + "), asynchronous."@,
        Times::At(list) => meeting_lines(name, professor, list@),
    }
}

fn push_meeting_line(out: &mut String, name: &String, professor: &String, time: &ClassTime)
    ensures
        final(out)@ == old(out)@ + meeting_line(name@, professor@, *time),
{
    out.append("\t");
    out.append(name.as_str());
    out.append(" (");
    out.append(professor.as_str());
    out.append(") on ");
    out.append(time.start.day.name());
    out.append(", from ");
    out.append(time.start.hms_string().as_str());
    out.append(" to ");
    out.append(time.end.hms_string().as_str());
    out.append(", at ");
    out.append(time.location.campus.as_str());
    out.append(", ");
    out.append(time.location.building.as_str());
    out.append(" (Room ");
    out.append(time.location.room.as_str());
    out.append(")\n");
    assert(out@ =~= old(out)@ + meeting_line(name@, professor@, *time));
}

/// A class of the schedule.
#[derive(Debug, Clone)]
pub struct Class {
    name: String,
    times: Times,
    professor: String,
    office_hours: Times,
}

impl Default for Class {
    fn default() -> (c: Class)
        ensures
            c.name()@.len() == 0,
            c.professor()@.len() == 0,
            c.times() is Async,
            c.office_hours() is Async,
    {
        Class {
            name: String::new(),
            times: Times::Async,
            professor: String::new(),
            office_hours: Times::Async,
        }
    }
}

impl Class {
    /// The name of the class, its key within a schedule.
    pub closed spec fn name(&self) -> String {
        self.name
    }

    /// Who teaches the class.
    pub closed spec fn professor(&self) -> String {
        self.professor
    }

    /// When the class meets.
    pub closed spec fn times(&self) -> Times {
        self.times
    }

    /// When the professor holds office hours.
    pub closed spec fn office_hours(&self) -> Times {
        self.office_hours
    }

    /// Whether the class is in session at `time`.
    pub open spec fn in_session_at(&self, time: crate::time::Time) -> bool {
        self.times().spec_active_at(time)
    }

    /// A class known only by its name and professor; it meets at no fixed
    /// time and has no office hours.
    pub fn from_names(class: String, professor: String) -> (c: Class)
        ensures
            c.name() == class,
            c.professor() == professor,
            c.times() is Async,
            c.office_hours() is Async,
    {
        Class { name: class, times: Times::Async, professor, office_hours: Times::Async }
    }

    /// A class with all its parts.
    pub fn new(name: String, professor: String, times: Times, office_hours: Times) -> (c: Class)
        ensures
            c.name() == name,
            c.professor() == professor,
            c.times() == times,
            c.office_hours() == office_hours,
    {
        Class { name, times, professor, office_hours }
    }

    pub fn get_name(&self) -> (name: &String)
        ensures
            *name == self.name(),
    {
        &self.name
    }

    pub fn get_professor(&self) -> (professor: &String)
        ensures
            *professor == self.professor(),
    {
        &self.professor
    }

    pub fn get_times(&self) -> (times: &Times)
        ensures
            *times == self.times(),
    {
        &self.times
    }

    pub fn get_office_hours(&self) -> (times: &Times)
        ensures
            *times == self.office_hours(),
    {
        &self.office_hours
    }

    /// The listing of the class, as shown to the user.
    pub fn to_string(&self) -> (s: String)
        ensures
            s@ == class_listing(self.name()@, self.professor()@, self.times()),
    {
        match &self.times {
            Times::Async => {
                let mut out = String::from_str("\t");
                out.append(self.name.as_str());
                out.append(" (");
                out.append(self.professor.as_str());
                out.append("), asynchronous.");
                out
            },
            Times::At(list) => {
                let mut out = String::new();
                let mut i: usize = 0;
                assert(list@.take(0) == Seq::<ClassTime>::empty());
                while i < list.len()
                    invariant
                        i <= list.len(),
                        out@ == meeting_lines(self.name@, self.professor@, list@.take(i as int)),
                    decreases list.len() - i,
                {
                    push_meeting_line(&mut out, &self.name, &self.professor, &list[i]);
                    assert(list@.take(i + 1).drop_last() == list@.take(i as int));
                    i += 1;
                }
                assert(list@.take(list@.len() as int) == list@);
                out
            },
        }
    }
}

} // verus!
