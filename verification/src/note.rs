//! Where today's note goes. The week and session numbers are not stored
//! anywhere: they are read off the names of the directories that exist, and
//! the next session is planned from them.

use crate::class::Class;
use crate::clock::local_date;
use crate::decimal::{
    decimal, is_digit, lemma_decimal_digits, lemma_decimal_round_trip, parse_all, parse_from,
    parse_unsigned, push_decimal,
};
use crate::text::{
    chars_of, has_prefix, lemma_split_first, slice_of, split, split_on, strip_trailing, texts,
    without_trailing,
};
use vstd::prelude::*;
use vstd::string::StringExecFns;

verus! {

/// The largest week or session number that a directory name can carry.
pub const MAX_NUMBER: u32 = 65535;

/// The week that a directory name stands for: `Week_` followed by a number
/// as `parse_unsigned` reads it. Names are written without sign or leading
/// zeros; in reading, both are let through, and `Week_0` is a week as well.
pub open spec fn week_number(name: Seq<char>) -> Option<nat> {
    if "Week_"@.is_prefix_of(name) {
        parse_unsigned(name.skip("Week_"@.len() as int), MAX_NUMBER as nat)
    } else {
        None
    }
}

/// The session that a directory name stands for: `Class`, then a number
/// as `parse_unsigned` reads it, then either the end of the name or a `-`
/// and anything at all. Slashes at the end of the name are disregarded.
pub open spec fn session_number(name: Seq<char>) -> Option<nat> {
    let bare = without_trailing(name, '/');
    if "Class"@.is_prefix_of(bare) {
        parse_unsigned(split(bare.skip("Class"@.len() as int), '-')[0], MAX_NUMBER as nat)
    } else {
        None
    }
}

/// The name of the directory of week `week`.
pub open spec fn week_dir_name(week: nat) -> Seq<char> {
    "Week_"@ + decimal(week)
}

/// The name of the directory of session `ordinal` held on `date`; the note
/// in it has the same name with `.md` after it.
pub open spec fn session_name(ordinal: nat, date: Seq<char>) -> Seq<char> {
    "Class"@ + decimal(ordinal) + seq!['-'] + date
}

/// The week numbers that `names` stand for, name by name.
pub open spec fn week_numbers(names: Seq<Seq<char>>) -> Seq<Option<nat>> {
    Seq::new(names.len(), |i: int| week_number(names[i]))
}

/// The session numbers that `names` stand for, name by name.
pub open spec fn session_numbers(names: Seq<Seq<char>>) -> Seq<Option<nat>> {
    Seq::new(names.len(), |i: int| session_number(names[i]))
}

/// The largest of the numbers present, if any is.
pub open spec fn highest(nums: Seq<Option<nat>>) -> Option<nat>
    decreases nums.len(),
{
    if nums.len() == 0 {
        None
    } else {
        let rest = highest(nums.drop_last());
        match nums.last() {
            Some(n) => if rest is Some && rest->0 >= n {
                rest
            } else {
                Some(n)
            },
            None => rest,
        }
    }
}

/// The latest week of a class: 0 when the notes root is missing, 1 when
/// the class has no directory yet or no week directory in it, and otherwise
/// the largest week number among the names in the class directory.
pub open spec fn latest_week(root_exists: bool, class_exists: bool, names: Seq<Seq<char>>) -> nat {
    if !root_exists {
        0
    } else if !class_exists {
        1
    } else {
        match highest(week_numbers(names)) {
            Some(week) => week,
            None => 1,
        }
    }
}

/// The last session recorded in a week directory: the largest session
/// number among its names, 0 when there is none.
pub open spec fn last_session(names: Seq<Seq<char>>) -> nat {
    match highest(session_numbers(names)) {
        Some(ordinal) => ordinal,
        None => 0,
    }
}

/// Whether the last session of the week was held on `date`, so that its
/// directory is used again.
pub open spec fn reuses(names: Seq<Seq<char>>, date: Seq<char>) -> bool {
    names.contains(session_name(last_session(names), date))
}

/// The number of the session to open: the last one when it is of `date`,
/// otherwise the one after it.
pub open spec fn planned_ordinal(names: Seq<Seq<char>>, date: Seq<char>) -> nat {
    if reuses(names, date) {
        last_session(names)
    } else {
        last_session(names) + 1
    }
}

/// The week in which the session is opened. A new session goes to the week
/// after `week` once the week directory holds at least as many directories
/// as the class has weekly meetings.
pub open spec fn planned_week(
    week: nat,
    names: Seq<Seq<char>>,
    date: Seq<char>,
    slots: nat,
) -> nat {
    if !reuses(names, date) && names.len() >= slots {
        week + 1
    } else {
        week
    }
}

/// The path of a note below the notes root.
pub open spec fn note_path(
    class_name: Seq<char>,
    week: nat,
    ordinal: nat,
    date: Seq<char>,
) -> Seq<char> {
    class_name + seq!['/'] + week_dir_name(week) + seq!['/'] + session_name(ordinal, date)
        + seq!['/'] + session_name(ordinal, date) + ".md"@
}

/// The week in which a note is opened, planned from the directory names as
/// they are listed: `weeks` inside the class directory and `sessions` inside
/// its latest week directory.
pub open spec fn resolved_week(
    root_exists: bool,
    class_exists: bool,
    weeks: Seq<Seq<char>>,
    sessions: Seq<Seq<char>>,
    date: Seq<char>,
    slots: nat,
) -> nat {
    planned_week(latest_week(root_exists, class_exists, weeks), sessions, date, slots)
}

/// The path of the note that is opened, planned from the directory names
/// as they are listed.
pub open spec fn resolved_path(
    class_name: Seq<char>,
    root_exists: bool,
    class_exists: bool,
    weeks: Seq<Seq<char>>,
    sessions: Seq<Seq<char>>,
    date: Seq<char>,
    slots: nat,
) -> Seq<char> {
    note_path(
        class_name,
        resolved_week(root_exists, class_exists, weeks, sessions, date, slots),
        planned_ordinal(sessions, date),
        date,
    )
}

/// Every number present is at most the highest, and the highest is one of
/// the numbers present.
pub proof fn lemma_highest_bounds(nums: Seq<Option<nat>>)
    ensures
        forall|i: int|
            0 <= i < nums.len() && (#[trigger] nums[i]) is Some ==> highest(nums) is Some
                && nums[i]->0 <= highest(nums)->0,
        highest(nums) is Some ==> exists|i: int|
            0 <= i < nums.len() && #[trigger] nums[i] == highest(nums),
    decreases nums.len(),
{
    if nums.len() > 0 {
        let init = nums.drop_last();
        lemma_highest_bounds(init);
        assert forall|i: int| 0 <= i < nums.len() && (#[trigger] nums[i]) is Some implies highest(
            nums,
        ) is Some && nums[i]->0 <= highest(nums)->0 by {
            if i < init.len() {
                assert(init[i] == nums[i]);
            }
        }
        if highest(nums) is Some {
            if highest(nums) == nums.last() {
                assert(nums[nums.len() - 1] == highest(nums));
            } else {
                let i = choose|i: int| 0 <= i < init.len() && #[trigger] init[i] == highest(init);
                assert(nums[i] == highest(nums));
            }
        }
    }
}

/// A number that is present and that no other exceeds is the highest.
pub proof fn lemma_highest_is(nums: Seq<Option<nat>>, at: int, top: nat)
    requires
        0 <= at < nums.len(),
        nums[at] == Some(top),
        forall|i: int| 0 <= i < nums.len() && (#[trigger] nums[i]) is Some ==> nums[i]->0 <= top,
    ensures
        highest(nums) == Some(top),
{
    lemma_highest_bounds(nums);
}

/// An entry without a number does not change the highest number.
proof fn lemma_absent_number_is_ignored(nums: Seq<Option<nat>>, at: int)
    requires
        0 <= at <= nums.len(),
    ensures
        highest(nums.insert(at, None)) == highest(nums),
{
    let wider = nums.insert(at, None);
    lemma_highest_bounds(nums);
    lemma_highest_bounds(wider);
    if highest(nums) is Some {
        let i = choose|i: int| 0 <= i < nums.len() && #[trigger] nums[i] == highest(nums);
        let moved = if i < at {
            i
        } else {
            i + 1
        };
        assert(wider[moved] == nums[i]);
        assert forall|j: int|
            0 <= j < wider.len() && (#[trigger] wider[j]) is Some implies wider[j]->0 <= highest(
                nums,
            )->0 by {
            if j < at {
                assert(wider[j] == nums[j]);
            } else if j > at {
                assert(wider[j] == nums[j - 1]);
            }
        }
        lemma_highest_is(wider, moved, highest(nums)->0);
    } else if highest(wider) is Some {
        let j = choose|j: int| 0 <= j < wider.len() && #[trigger] wider[j] == highest(wider);
        if j < at {
            assert(wider[j] == nums[j]);
        } else if j > at {
            assert(wider[j] == nums[j - 1]);
        }
    }
}

/// No run of `c` is cut off a text that ends in something else.
proof fn lemma_without_trailing_after(head: Seq<char>, tail: Seq<char>, c: char)
    requires
        head.len() > 0,
        head.last() != c,
    ensures
        without_trailing(head + tail, c) == head + without_trailing(tail, c),
    decreases tail.len(),
{
    if tail.len() == 0 {
        assert(head + tail == head);
        assert(head + without_trailing(tail, c) == head);
    } else {
        assert((head + tail).last() == tail.last());
        assert((head + tail).drop_last() == head + tail.drop_last());
        if tail.last() == c {
            lemma_without_trailing_after(head, tail.drop_last(), c);
        }
    }
}

/// The name written for a week reads back as that week.
pub proof fn lemma_week_name_round_trip(week: nat)
    requires
        week <= MAX_NUMBER,
    ensures
        week_number(week_dir_name(week)) == Some(week),
{
    reveal_strlit("Week_");
    let name = week_dir_name(week);
    assert(name.skip(5) == decimal(week));
    assert(name.subrange(0, 5) == "Week_"@);
    lemma_decimal_round_trip(week, MAX_NUMBER as nat);
}

/// The name written for a session reads back as that session, whatever
/// the date is.
pub proof fn lemma_session_name_round_trip(ordinal: nat, date: Seq<char>)
    requires
        ordinal <= MAX_NUMBER,
    ensures
        session_number(session_name(ordinal, date)) == Some(ordinal),
{
    reveal_strlit("Class");
    let digits = decimal(ordinal);
    lemma_decimal_digits(ordinal);
    let head = ("Class"@ + digits).push('-');
    let name = session_name(ordinal, date);
    assert(name == head + date);
    lemma_without_trailing_after(head, date, '/');
    let rest = without_trailing(date, '/');
    let bare = without_trailing(name, '/');
    assert(bare == head + rest);
    assert(bare.subrange(0, 5) == "Class"@);
    assert(bare.skip(5) == digits.push('-') + rest);
    assert(!digits.contains('-')) by {
        if digits.contains('-') {
            let i = choose|i: int| 0 <= i < digits.len() && digits[i] == '-';
            assert(is_digit(digits[i]));
        }
    }
    lemma_split_first(digits, '-', rest);
    lemma_decimal_round_trip(ordinal, MAX_NUMBER as nat);
}

/// A name that stands for no number changes nothing, wherever in the
/// listing it comes: the last session and the latest week are what they
/// are without it.
pub proof fn lemma_other_names_do_not_count(names: Seq<Seq<char>>, at: int, name: Seq<char>)
    requires
        0 <= at <= names.len(),
    ensures
        session_number(name) is None ==> last_session(names.insert(at, name)) == last_session(
            names,
        ),
        week_number(name) is None ==> latest_week(true, true, names.insert(at, name))
            == latest_week(true, true, names),
{
    if session_number(name) is None {
        assert(session_numbers(names.insert(at, name)) =~= session_numbers(names).insert(
            at,
            None,
        ));
        lemma_absent_number_is_ignored(session_numbers(names), at);
    }
    if week_number(name) is None {
        assert(week_numbers(names.insert(at, name)) =~= week_numbers(names).insert(at, None));
        lemma_absent_number_is_ignored(week_numbers(names), at);
    }
}

/// Opening today's note twice gives the same note. Take a class directory
/// as it is listed (`weeks`) and its latest week directory (`sessions`), and
/// let the note for `date` be planned from them. Afterwards the chosen week
/// directory is there beside what was there, and in it, beside what it held
/// if it is not new, the session directory. Planned again from that state,
/// on the same date, the note has the same path, and its directory is one
/// that is used again. The week and the session must have numbers that a
/// directory name can carry.
pub proof fn lemma_second_resolution_is_the_first(
    class_name: Seq<char>,
    root_exists: bool,
    class_exists: bool,
    weeks: Seq<Seq<char>>,
    sessions: Seq<Seq<char>>,
    date: Seq<char>,
    slots: nat,
    weeks_after: Seq<Seq<char>>,
    sessions_after: Seq<Seq<char>>,
)
    requires
        resolved_week(root_exists, class_exists, weeks, sessions, date, slots) <= MAX_NUMBER,
        planned_ordinal(sessions, date) <= MAX_NUMBER,
        forall|x: Seq<char>| #[trigger]
            weeks_after.contains(x) <==> (x == week_dir_name(
                resolved_week(root_exists, class_exists, weeks, sessions, date, slots),
            ) || (root_exists && class_exists && weeks.contains(x))),
        forall|x: Seq<char>| #[trigger]
            sessions_after.contains(x) <==> (x == session_name(
                planned_ordinal(sessions, date),
                date,
            ) || (resolved_week(root_exists, class_exists, weeks, sessions, date, slots)
                == latest_week(root_exists, class_exists, weeks) && sessions.contains(x))),
    ensures
        reuses(sessions_after, date),
        latest_week(true, true, weeks_after) == resolved_week(
            root_exists,
            class_exists,
            weeks,
            sessions,
            date,
            slots,
        ),
        resolved_week(true, true, weeks_after, sessions_after, date, slots) == resolved_week(
            root_exists,
            class_exists,
            weeks,
            sessions,
            date,
            slots,
        ),
        planned_ordinal(sessions_after, date) == planned_ordinal(sessions, date),
        resolved_path(class_name, true, true, weeks_after, sessions_after, date, slots)
            == resolved_path(class_name, root_exists, class_exists, weeks, sessions, date, slots),
{
    let before = latest_week(root_exists, class_exists, weeks);
    let week = planned_week(before, sessions, date, slots);
    let ordinal = planned_ordinal(sessions, date);
    let week_name = week_dir_name(week);
    let name = session_name(ordinal, date);
    lemma_week_name_round_trip(week);
    lemma_session_name_round_trip(ordinal, date);
    lemma_highest_bounds(week_numbers(weeks));
    lemma_highest_bounds(session_numbers(sessions));

    // The chosen week is the latest one afterwards.
    let week_nums = week_numbers(weeks_after);
    assert(weeks_after.contains(week_name));
    let w_at = choose|i: int| 0 <= i < weeks_after.len() && weeks_after[i] == week_name;
    assert(week_nums[w_at] == Some(week));
    assert forall|i: int|
        0 <= i < week_nums.len() && (#[trigger] week_nums[i]) is Some implies week_nums[i]->0
        <= week by {
        let x = weeks_after[i];
        assert(weeks_after.contains(x));
        if x != week_name {
            let j = choose|j: int| 0 <= j < weeks.len() && weeks[j] == x;
            assert(week_numbers(weeks)[j] == week_number(x));
        }
    }
    lemma_highest_is(week_nums, w_at, week);

    // The session just opened is the last one afterwards.
    let session_nums = session_numbers(sessions_after);
    assert(sessions_after.contains(name));
    let s_at = choose|i: int| 0 <= i < sessions_after.len() && sessions_after[i] == name;
    assert(session_nums[s_at] == Some(ordinal));
    assert forall|i: int|
        0 <= i < session_nums.len() && (
        #[trigger] session_nums[i]) is Some implies session_nums[i]->0 <= ordinal by {
        let x = sessions_after[i];
        assert(sessions_after.contains(x));
        if x != name {
            let j = choose|j: int| 0 <= j < sessions.len() && sessions[j] == x;
            assert(session_numbers(sessions)[j] == session_number(x));
        }
    }
    lemma_highest_is(session_nums, s_at, ordinal);
    assert(last_session(sessions_after) == ordinal);
}

/// The week that a directory name stands for, if it is a week directory.
pub fn parse_week_number(name: &str) -> (week: Option<u16>)
    ensures
        match week {
            Some(n) => week_number(name@) == Some(n as nat),
            None => week_number(name@) is None,
        },
{
    let chars = chars_of(name);
    let prefix = chars_of("Week_");
    proof {
        reveal_strlit("Week_");
    }
    if !has_prefix(&chars, &prefix) {
        return None;
    }
    match parse_from(&chars, prefix.len(), MAX_NUMBER) {
        Some(n) => Some(n as u16),
        None => None,
    }
}

/// The session that a directory name stands for, if it is a session
/// directory.
pub fn parse_session_number(name: &str) -> (ordinal: Option<u16>)
    ensures
        match ordinal {
            Some(n) => session_number(name@) == Some(n as nat),
            None => session_number(name@) is None,
        },
{
    let bare = strip_trailing(&chars_of(name), '/');
    let prefix = chars_of("Class");
    proof {
        reveal_strlit("Class");
    }
    if !has_prefix(&bare, &prefix) {
        return None;
    }
    let rest = slice_of(&bare, prefix.len(), bare.len());
    assert(rest@ == bare@.skip(prefix.len() as int));
    let pieces = split_on(&rest, '-');
    match parse_all(&pieces[0], MAX_NUMBER) {
        Some(n) => Some(n as u16),
        None => None,
    }
}

/// The largest week number among `names`, if any of them is a week
/// directory.
pub fn highest_week_number(names: &Vec<String>) -> (top: Option<u16>)
    ensures
        match top {
            Some(n) => highest(week_numbers(texts(names@))) == Some(n as nat),
            None => highest(week_numbers(texts(names@))) is None,
        },
{
    let ghost nums = week_numbers(texts(names@));
    let mut top: Option<u16> = None;
    let mut i: usize = 0;
    assert(nums.take(0) == Seq::<Option<nat>>::empty());
    while i < names.len()
        invariant
            i <= names.len(),
            nums == week_numbers(texts(names@)),
            match top {
                Some(n) => highest(nums.take(i as int)) == Some(n as nat),
                None => highest(nums.take(i as int)) is None,
            },
        decreases names.len() - i,
    {
        let found = parse_week_number(names[i].as_str());
        proof {
            assert(nums.take(i + 1).drop_last() == nums.take(i as int));
            assert(nums.take(i + 1).last() == week_number(names@[i as int]@));
        }
        top = match (top, found) {
            (Some(a), Some(b)) => if a >= b {
                Some(a)
            } else {
                Some(b)
            },
            (Some(a), None) => Some(a),
            (None, other) => other,
        };
        i += 1;
    }
    assert(nums.take(nums.len() as int) == nums);
    top
}

/// The largest session number among `names`, if any of them is a session
/// directory.
pub fn highest_session_number(names: &Vec<String>) -> (top: Option<u16>)
    ensures
        match top {
            Some(n) => highest(session_numbers(texts(names@))) == Some(n as nat),
            None => highest(session_numbers(texts(names@))) is None,
        },
{
    let ghost nums = session_numbers(texts(names@));
    let mut top: Option<u16> = None;
    let mut i: usize = 0;
    assert(nums.take(0) == Seq::<Option<nat>>::empty());
    while i < names.len()
        invariant
            i <= names.len(),
            nums == session_numbers(texts(names@)),
            match top {
                Some(n) => highest(nums.take(i as int)) == Some(n as nat),
                None => highest(nums.take(i as int)) is None,
            },
        decreases names.len() - i,
    {
        let found = parse_session_number(names[i].as_str());
        proof {
            assert(nums.take(i + 1).drop_last() == nums.take(i as int));
            assert(nums.take(i + 1).last() == session_number(names@[i as int]@));
        }
        top = match (top, found) {
            (Some(a), Some(b)) => if a >= b {
                Some(a)
            } else {
                Some(b)
            },
            (Some(a), None) => Some(a),
            (None, other) => other,
        };
        i += 1;
    }
    assert(nums.take(nums.len() as int) == nums);
    top
}

/// The latest week of a class. `week_dirs` are the names of the directories
/// inside the class directory; they are looked at only when both the notes
/// root and the class directory exist.
pub fn get_latest_week_num(root_exists: bool, class_exists: bool, week_dirs: &Vec<String>) -> (week:
    u16)
    ensures
        week == latest_week(root_exists, class_exists, texts(week_dirs@)),
{
    if !root_exists {
        return 0;
    }
    if !class_exists {
        return 1;
    }
    match highest_week_number(week_dirs) {
        Some(week) => week,
        None => 1,
    }
}

/// The name of the directory of week `week`.
pub fn week_dir(week: u32) -> (name: String)
    ensures
        name@ == week_dir_name(week as nat),
{
    let mut name = String::from_str("Week_");
    push_decimal(&mut name, week);
    name
}

/// The name of the directory of session `ordinal` held on `date`.
pub fn session_dir(ordinal: u32, date: &str) -> (name: String)
    ensures
        name@ == session_name(ordinal as nat, date@),
{
    let mut name = String::from_str("Class");
    push_decimal(&mut name, ordinal);
    name.push('-');
    name.append(date);
    name
}

/// Whether one of `names` is exactly `wanted`.
pub fn has_name(names: &Vec<String>, wanted: &String) -> (found: bool)
    ensures
        found == texts(names@).contains(wanted@),
{
    let mut i: usize = 0;
    while i < names.len()
        invariant
            i <= names.len(),
            forall|k: int| 0 <= k < i ==> texts(names@)[k] != wanted@,
        decreases names.len() - i,
    {
        if names[i] == *wanted {
            assert(texts(names@)[i as int] == wanted@);
            return true;
        }
        i += 1;
    }
    false
}

/// Which session directory to open: in which week, under which number, and
/// whether it is there already.
#[derive(Debug, Clone, Copy, PartialEq, Eq, Structural)]
pub struct SessionPlan {
    pub week: u32,
    pub ordinal: u32,
    pub reused: bool,
}

impl SessionPlan {
    /// The name of the week directory.
    pub fn week_dir(&self) -> (name: String)
        ensures
            name@ == week_dir_name(self.week as nat),
    {
        week_dir(self.week)
    }

    /// The name of the session directory, for a session held on `date`.
    pub fn session_dir(&self, date: &str) -> (name: String)
        ensures
            name@ == session_name(self.ordinal as nat, date@),
    {
        session_dir(self.ordinal, date)
    }

    /// The name of the note inside the session directory.
    pub fn note_file(&self, date: &str) -> (name: String)
        ensures
            name@ == session_name(self.ordinal as nat, date@) + ".md"@,
    {
        let mut name = session_dir(self.ordinal, date);
        name.append(".md");
        name
    }

    /// The path of the note below the notes root, with `/` between its
    /// parts.
    pub fn relative_path(&self, class_name: &str, date: &str) -> (path: String)
        ensures
            path@ == note_path(class_name@, self.week as nat, self.ordinal as nat, date@),
    {
        let session = session_dir(self.ordinal, date);
        let mut path = String::from_str(class_name);
        path.push('/');
        path.append(week_dir(self.week).as_str());
        path.push('/');
        path.append(session.as_str());
        path.push('/');
        path.append(session.as_str());
        path.append(".md");
        assert(path@ =~= note_path(class_name@, self.week as nat, self.ordinal as nat, date@));
        path
    }
}

/// Plans the session of `date` for a class with `slots` weekly meetings.
/// `week` is the latest week of the class and `session_dirs` are the names
/// of the directories inside that week's directory (none when it does not
/// exist). The last session is used again when it is of `date`; otherwise a
/// new one is numbered after it, in the next week once this one is full.
pub fn plan_session(week: u16, session_dirs: &Vec<String>, date: &str, slots: usize) -> (plan:
    SessionPlan)
    ensures
        plan.week == planned_week(week as nat, texts(session_dirs@), date@, slots as nat),
        plan.ordinal == planned_ordinal(texts(session_dirs@), date@),
        plan.reused == reuses(texts(session_dirs@), date@),
{
    let last: u32 = match highest_session_number(session_dirs) {
        Some(n) => n as u32,
        None => 0,
    };
    let candidate = session_dir(last, date);
    if has_name(session_dirs, &candidate) {
        SessionPlan { week: week as u32, ordinal: last, reused: true }
    } else if session_dirs.len() >= slots {
        SessionPlan { week: week as u32 + 1, ordinal: last + 1, reused: false }
    } else {
        SessionPlan { week: week as u32, ordinal: last + 1, reused: false }
    }
}

/// Plans today's session for `class`: `plan_session` with the class's
/// number of weekly meetings and the local calendar date, which is returned
/// beside the plan.
pub fn get_current_classnote(class: &Class, week: u16, session_dirs: &Vec<String>) -> (r: (
    SessionPlan,
    String,
))
    ensures
        r.0.week == planned_week(
            week as nat,
            texts(session_dirs@),
            r.1@,
            class.times().spec_len(),
        ),
        r.0.ordinal == planned_ordinal(texts(session_dirs@), r.1@),
        r.0.reused == reuses(texts(session_dirs@), r.1@),
{
    let today = local_date();
    let plan = plan_session(week, session_dirs, today.as_str(), class.get_times().len());
    (plan, today)
}

} // verus!
