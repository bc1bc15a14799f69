//! Reading a time of day as a user types it: `13:00`, `1:00 PM`, `9`.

use crate::decimal::{parse_all, parse_unsigned};
use crate::text::{chars_of, is_text, lemma_split_nonempty, lower, split, split_on, to_lower};
use vstd::prelude::*;

verus! {

/// The number in field `index` of a time, where a field that was left out
/// counts as zero and a field that is no number up to 255 is `None`.
pub open spec fn time_field(fields: Seq<Seq<char>>, index: int) -> Option<nat> {
    if index < fields.len() {
        parse_unsigned(fields[index], 255)
    } else {
        Some(0)
    }
}

/// The hour on the 24-hour clock. Without a suffix the hour stands as it
/// is; with `am`, twelve becomes zero; with `pm`, twelve stays and every
/// other hour is moved to the afternoon.
pub open spec fn hour_of_day(hour: nat, has_suffix: bool, suffix: Seq<char>) -> nat {
    if has_suffix && suffix == "am"@ && hour == 12 {
        0
    } else if has_suffix && suffix == "pm"@ && hour != 12 {
        hour + 12
    } else {
        hour
    }
}

/// What a text means as a time of day. The text is one word, or two of
/// which the second is `am` or `pm` in any letter case. The first word is
/// an hour, optionally followed by `:` and minutes, and again by `:` and
/// seconds; anything after a third `:` is disregarded. The hour may be up
/// to 24, or up to 12 before a suffix; minutes and seconds up to 60.
pub open spec fn time_of_day(input: Seq<char>) -> Result<(nat, nat, nat), Seq<char>> {
    let words = split(input, ' ');
    let suffix = lower(words.last());
    if words.len() > 2 || (words.len() == 2 && suffix != "am"@ && suffix != "pm"@) {
        Err("Invalid input: \"{input}\". Please use one of the specified formats."@)
    } else {
        let fields = split(words[0], ':');
        let hours = time_field(fields, 0);
        let mins = time_field(fields, 1);
        let secs = time_field(fields, 2);
        if hours is None {
            Err("Invalid hours entry. Please try again."@)
        } else if mins is None {
            Err("Invalid minutes entry. Please try again."@)
        } else if secs is None {
            Err("Invalid seconds entry. Please try again."@)
        } else if (words.len() == 1 && hours->0 > 24) || (words.len() == 2 && hours->0 > 12)
            || mins->0 > 60 || secs->0 > 60 {
            Err("Please enter a valid time."@)
        } else {
            Ok((hour_of_day(hours->0, words.len() == 2, suffix), mins->0, secs->0))
        }
    }
}

fn read_field(fields: &Vec<Vec<char>>, index: usize) -> (value: Option<u8>)
    ensures
        match value {
            Some(n) => time_field(fields@.map_values(|f: Vec<char>| f@), index as int) == Some(
                n as nat,
            ),
            None => time_field(fields@.map_values(|f: Vec<char>| f@), index as int) is None,
        },
{
    if index < fields.len() {
        match parse_all(&fields[index], 255) {
            Some(n) => Some(n as u8),
            None => None,
        }
    } else {
        Some(0)
    }
}

/// Reads a time of day: hour, minute and second on the 24-hour clock, or
/// the message that tells the user what was wrong.
pub fn parse_time(input: &str) -> (r: Result<(u8, u8, u8), &'static str>)
    ensures
        match r {
            Ok(hms) => time_of_day(input@) == Ok::<(nat, nat, nat), Seq<char>>(
                (hms.0 as nat, hms.1 as nat, hms.2 as nat),
            ),
            Err(msg) => time_of_day(input@) == Err::<(nat, nat, nat), Seq<char>>(msg@),
        },
{
    let words = split_on(&chars_of(input), ' ');
    let suffix = to_lower(&words[words.len() - 1]);
    let is_am = is_text(&suffix, "am");
    let is_pm = is_text(&suffix, "pm");
    if words.len() > 2 || (words.len() == 2 && !is_am && !is_pm) {
        return Err("Invalid input: \"{input}\". Please use one of the specified formats.");
    }
    let fields = split_on(&words[0], ':');
    proof {
        lemma_split_nonempty(words@[0]@, ':');
        assert(fields@.map_values(|f: Vec<char>| f@) =~= split(words@[0]@, ':'));
    }
    let hours = match read_field(&fields, 0) {
        Some(n) => n,
        None => {
            return Err("Invalid hours entry. Please try again.");
        },
    };
    let mins = match read_field(&fields, 1) {
        Some(n) => n,
        None => {
            return Err("Invalid minutes entry. Please try again.");
        },
    };
    let secs = match read_field(&fields, 2) {
        Some(n) => n,
        None => {
            return Err("Invalid seconds entry. Please try again.");
        },
    };
    if (words.len() == 1 && hours > 24) || (words.len() == 2 && hours > 12) || mins > 60 || secs
        > 60 {
        return Err("Please enter a valid time.");
    }
    let hour = if words.len() == 2 && is_am && hours == 12 {
        0
    } else if words.len() == 2 && is_pm && hours != 12 {
        hours + 12
    } else {
        hours
    };
    Ok((hour, mins, secs))
}

} // verus!
