use classnote::location::Location;
use classnote::time::{ClassTime, Day, Time, Times};

fn at(day: Day, hour: u8, minute: u8, second: u8) -> Time {
    Time { day, hour, minute, second }
}

fn room() -> Location {
    Location { campus: "Main".to_string(), building: "Hall".to_string(), room: "101".to_string() }
}

#[test]
fn tomorrow_cycles_through_the_week() {
    assert_eq!(Day::Monday.tomorrow(), Day::Tuesday);
    assert_eq!(Day::Tuesday.tomorrow(), Day::Wednesday);
    assert_eq!(Day::Wednesday.tomorrow(), Day::Thursday);
    assert_eq!(Day::Thursday.tomorrow(), Day::Friday);
    assert_eq!(Day::Friday.tomorrow(), Day::Saturday);
    assert_eq!(Day::Saturday.tomorrow(), Day::Sunday);
    assert_eq!(Day::Sunday.tomorrow(), Day::Monday);
}

#[test]
fn tomorrow_keeps_async() {
    assert_eq!(Day::Async.tomorrow(), Day::Async);
}

#[test]
fn tomorrow_is_one_to_one_on_weekdays() {
    let days = [
        Day::Monday,
        Day::Tuesday,
        Day::Wednesday,
        Day::Thursday,
        Day::Friday,
        Day::Saturday,
        Day::Sunday,
    ];
    for a in days {
        assert_ne!(a.tomorrow(), Day::Async);
        assert!(days.iter().any(|b| b.tomorrow() == a));
        for b in days {
            if a != b {
                assert_ne!(a.tomorrow(), b.tomorrow());
            }
        }
    }
}

#[test]
fn day_ordinals() {
    assert_eq!(Day::Async.ordinal(), 0);
    assert_eq!(Day::Monday.ordinal(), 1);
    assert_eq!(Day::Sunday.ordinal(), 7);
}

#[test]
fn day_default_is_async() {
    assert_eq!(Day::default(), Day::Async);
    assert_eq!(Time::default(), at(Day::Async, 0, 0, 0));
}

#[test]
fn absolute_seconds_formula() {
    assert_eq!(at(Day::Monday, 0, 0, 0).to_absolute_seconds(), 0);
    assert_eq!(at(Day::Monday, 1, 2, 3).to_absolute_seconds(), 3723);
    assert_eq!(at(Day::Wednesday, 13, 30, 15).to_absolute_seconds(), 2 * 86400 + 48615);
    assert_eq!(at(Day::Sunday, 23, 59, 59).to_absolute_seconds(), 604799);
}

#[test]
fn absolute_seconds_counts_async_as_monday() {
    assert_eq!(at(Day::Async, 1, 0, 0).to_absolute_seconds(), 3600);
}

#[test]
fn absolute_seconds_never_overflows() {
    assert_eq!(at(Day::Sunday, 255, 255, 255).to_absolute_seconds(), 518400 + 918000 + 15300 + 255);
}

#[test]
fn async_is_always_between() {
    let start = at(Day::Monday, 9, 0, 0);
    let end = at(Day::Monday, 10, 0, 0);
    let outside = at(Day::Friday, 23, 0, 0);
    assert!(at(Day::Async, 200, 200, 200).is_between(&start, &end));
    assert!(outside.is_between(&at(Day::Async, 0, 0, 0), &end));
    assert!(outside.is_between(&start, &at(Day::Async, 99, 99, 99)));
}

#[test]
fn plain_window_includes_both_ends() {
    let start = at(Day::Tuesday, 9, 0, 0);
    let end = at(Day::Tuesday, 10, 15, 0);
    assert!(start.is_between(&start, &end));
    assert!(end.is_between(&start, &end));
    assert!(at(Day::Tuesday, 9, 30, 0).is_between(&start, &end));
    assert!(!at(Day::Tuesday, 8, 59, 59).is_between(&start, &end));
    assert!(!at(Day::Tuesday, 10, 15, 1).is_between(&start, &end));
    assert!(!at(Day::Wednesday, 9, 30, 0).is_between(&start, &end));
}

#[test]
fn window_across_midnight_within_the_week() {
    let start = at(Day::Thursday, 23, 0, 0);
    let end = at(Day::Friday, 1, 0, 0);
    assert!(at(Day::Thursday, 23, 30, 0).is_between(&start, &end));
    assert!(at(Day::Friday, 0, 30, 0).is_between(&start, &end));
    assert!(!at(Day::Friday, 1, 0, 1).is_between(&start, &end));
}

#[test]
fn wrapping_window_spans_the_week_boundary() {
    let start = at(Day::Sunday, 22, 0, 0);
    let end = at(Day::Monday, 1, 0, 0);
    assert!(at(Day::Sunday, 23, 0, 0).is_between(&start, &end));
    assert!(at(Day::Monday, 0, 30, 0).is_between(&start, &end));
    assert!(start.is_between(&start, &end));
    assert!(end.is_between(&start, &end));
    assert!(!at(Day::Monday, 1, 0, 1).is_between(&start, &end));
    assert!(!at(Day::Wednesday, 12, 0, 0).is_between(&start, &end));
    assert!(!at(Day::Sunday, 21, 59, 59).is_between(&start, &end));
}

#[test]
fn hms_string_pads_to_two_digits() {
    assert_eq!(at(Day::Monday, 9, 5, 0).hms_string(), "09:05:00");
    assert_eq!(at(Day::Monday, 23, 59, 59).hms_string(), "23:59:59");
    assert_eq!(at(Day::Monday, 0, 0, 0).hms_string(), "00:00:00");
    assert_eq!(at(Day::Monday, 255, 100, 7).hms_string(), "255:100:07");
}

#[test]
fn get_hms_returns_the_fields() {
    assert_eq!(at(Day::Friday, 7, 8, 9).get_hms(), (7, 8, 9));
}

#[test]
fn time_to_string_names_the_day() {
    assert_eq!(at(Day::Monday, 9, 5, 0).to_string(), "09:05:00 on Monday");
    assert_eq!(at(Day::Async, 0, 0, 0).to_string(), "00:00:00 on Asynchronous");
}

#[test]
fn day_names() {
    assert_eq!(Day::Async.to_string(), "Asynchronous");
    assert_eq!(Day::Monday.name(), "Monday");
    assert_eq!(Day::Tuesday.name(), "Tuesday");
    assert_eq!(Day::Wednesday.name(), "Wednesday");
    assert_eq!(Day::Thursday.name(), "Thursday");
    assert_eq!(Day::Friday.name(), "Friday");
    assert_eq!(Day::Saturday.name(), "Saturday");
    assert_eq!(Day::Sunday.to_string(), "Sunday");
}

#[test]
fn day_from_str_reads_names_and_abbreviations() {
    assert_eq!(Day::from_str("M"), Ok(Day::Monday));
    assert_eq!(Day::from_str("mon"), Ok(Day::Monday));
    assert_eq!(Day::from_str("T"), Ok(Day::Tuesday));
    assert_eq!(Day::from_str("W"), Ok(Day::Wednesday));
    assert_eq!(Day::from_str("Th"), Ok(Day::Thursday));
    assert_eq!(Day::from_str("F"), Ok(Day::Friday));
    assert_eq!(Day::from_str("Sat"), Ok(Day::Saturday));
    assert_eq!(Day::from_str("sa"), Ok(Day::Saturday));
    assert_eq!(Day::from_str("Sun"), Ok(Day::Sunday));
    assert_eq!(Day::from_str("su"), Ok(Day::Sunday));
    assert_eq!(Day::from_str("  FRIDAY \t"), Ok(Day::Friday));
    assert_eq!(Day::from_str("wednesday"), Ok(Day::Wednesday));
}

#[test]
fn day_from_str_takes_blank_as_monday() {
    assert_eq!(Day::from_str(""), Ok(Day::Monday));
    assert_eq!(Day::from_str("   "), Ok(Day::Monday));
}

#[test]
fn day_from_str_rejects_other_text() {
    assert_eq!(
        Day::from_str("S"),
        Err("Unable to parse date from input: \"S\"".to_string())
    );
    assert_eq!(
        Day::from_str("Satur"),
        Err("Unable to parse date from input: \"Satur\"".to_string())
    );
    assert_eq!(
        Day::from_str("mondays"),
        Err("Unable to parse date from input: \"mondays\"".to_string())
    );
    assert_eq!(
        Day::from_str(" Xyz "),
        Err("Unable to parse date from input: \" Xyz \"".to_string())
    );
}

#[test]
fn now_is_a_weekday_and_a_clock_time() {
    let now = Time::now();
    assert_ne!(now.day, Day::Async);
    assert!(now.hour < 24);
    assert!(now.minute < 60);
    assert!(now.second < 60);
    assert!(now.to_absolute_seconds() < 604800);
}

#[test]
fn class_time_includes_its_window() {
    let meeting = ClassTime {
        start: at(Day::Monday, 9, 0, 0),
        end: at(Day::Monday, 10, 0, 0),
        location: room(),
    };
    assert!(meeting.includes(at(Day::Monday, 9, 30, 0)));
    assert!(!meeting.includes(at(Day::Monday, 10, 30, 0)));
    assert!(meeting.includes(at(Day::Async, 10, 30, 0)));
}

#[test]
fn class_time_from_a_triple() {
    let meeting = ClassTime::from((at(Day::Monday, 9, 0, 0), at(Day::Monday, 10, 0, 0), room()));
    assert_eq!(meeting.start, at(Day::Monday, 9, 0, 0));
    assert_eq!(meeting.end, at(Day::Monday, 10, 0, 0));
    assert_eq!(meeting.location.room, "101");
}

#[test]
fn class_time_default_is_async() {
    let meeting = ClassTime::default();
    assert_eq!(meeting.start, Time::default());
    assert_eq!(meeting.end, Time::default());
    assert_eq!(meeting.location.campus, "");
}

#[test]
fn moved_to_keeps_a_same_day_meeting_on_one_day() {
    let meeting = ClassTime {
        start: at(Day::Monday, 9, 0, 0),
        end: at(Day::Monday, 10, 0, 0),
        location: room(),
    };
    let moved = meeting.moved_to(Day::Wednesday);
    assert_eq!(moved.start, at(Day::Wednesday, 9, 0, 0));
    assert_eq!(moved.end, at(Day::Wednesday, 10, 0, 0));
    assert_eq!(moved.location.building, "Hall");
}

#[test]
fn moved_to_keeps_an_overnight_meeting_overnight() {
    let meeting = ClassTime {
        start: at(Day::Monday, 23, 0, 0),
        end: at(Day::Tuesday, 1, 0, 0),
        location: room(),
    };
    let moved = meeting.moved_to(Day::Sunday);
    assert_eq!(moved.start, at(Day::Sunday, 23, 0, 0));
    assert_eq!(moved.end, at(Day::Monday, 1, 0, 0));
}

#[test]
fn times_len_counts_meetings() {
    assert_eq!(Times::Async.len(), 0);
    let one = ClassTime::default();
    assert_eq!(Times::At(vec![one.clone(), one]).len(), 2);
}

#[test]
fn times_from_empty_list_is_async() {
    assert!(matches!(Times::from(Vec::new()), Times::Async));
    assert!(matches!(Times::from(vec![ClassTime::default()]), Times::At(_)));
    assert!(matches!(Times::default(), Times::Async));
}

#[test]
fn times_active_at() {
    let meeting = ClassTime {
        start: at(Day::Monday, 9, 0, 0),
        end: at(Day::Monday, 10, 0, 0),
        location: room(),
    };
    let later = ClassTime {
        start: at(Day::Friday, 9, 0, 0),
        end: at(Day::Friday, 10, 0, 0),
        location: room(),
    };
    let times = Times::At(vec![meeting, later]);
    assert!(times.active_at(at(Day::Friday, 9, 30, 0)));
    assert!(times.active_at(at(Day::Monday, 9, 0, 0)));
    assert!(!times.active_at(at(Day::Tuesday, 9, 30, 0)));
    assert!(!Times::Async.active_at(at(Day::Monday, 9, 30, 0)));
    assert!(!Times::Async.active_at(at(Day::Async, 0, 0, 0)));
}

#[test]
fn days_parse_through_the_standard_trait() {
    assert_eq!("mon".parse::<Day>(), Ok(Day::Monday));
    assert_eq!("Th".parse::<Day>(), Ok(Day::Thursday));
    assert_eq!(
        "noday".parse::<Day>(),
        Err("Unable to parse date from input: \"noday\"".to_string())
    );
}

#[test]
fn meetings_compare_by_their_fields() {
    let a = ClassTime {
        start: at(Day::Monday, 9, 0, 0),
        end: at(Day::Monday, 10, 0, 0),
        location: room(),
    };
    assert_eq!(a, a.clone());
    assert_ne!(a, ClassTime::default());
    assert_eq!(ClassTime::default(), ClassTime::default());
}
