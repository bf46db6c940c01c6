use chrono::{DateTime, Local, Offset, TimeZone, Timelike};
use watch_bells::bells::{
    bell_count_text, chime_plan, watch_and_bells_for_time, Chime, ClockState, Watch,
};
use watch_bells::clock::{Instant, ZonedDateTime};

fn zoned<Tz: TimeZone>(dt: &DateTime<Tz>) -> ZonedDateTime {
    ZonedDateTime {
        utc: Instant { secs: dt.timestamp(), nanos: dt.timestamp_subsec_nanos() },
        offset_secs: dt.offset().fix().local_minus_utc(),
    }
}

fn state_at(hour: u32, minute: u32) -> ClockState {
    let dt = Local::now()
        .with_hour(hour)
        .and_then(|d| d.with_minute(minute))
        .unwrap();
    watch_and_bells_for_time(zoned(&dt))
}

#[test]
fn test_first_watch() {
    let dt = Local::now().with_hour(20).and_then(|d| d.with_minute(0)).unwrap();
    let state = watch_and_bells_for_time(zoned(&dt));
    assert_eq!(state.watch, Watch::First);
    assert_eq!(state.bells, 8);

    let dt = Local::now().with_hour(22).and_then(|d| d.with_minute(30)).unwrap();
    let state = watch_and_bells_for_time(zoned(&dt));
    assert_eq!(state.watch, Watch::First);
    assert_eq!(state.bells, 5);
}

#[test]
fn test_middle_watch() {
    let dt = Local::now().with_hour(0).and_then(|d| d.with_minute(0)).unwrap();
    let state = watch_and_bells_for_time(zoned(&dt));
    assert_eq!(state.watch, Watch::Middle);
    assert_eq!(state.bells, 8);

    let dt = Local::now().with_hour(2).and_then(|d| d.with_minute(30)).unwrap();
    let state = watch_and_bells_for_time(zoned(&dt));
    assert_eq!(state.watch, Watch::Middle);
    assert_eq!(state.bells, 5);
}

#[test]
fn test_morning_watch() {
    let dt = Local::now().with_hour(4).and_then(|d| d.with_minute(0)).unwrap();
    let state = watch_and_bells_for_time(zoned(&dt));
    assert_eq!(state.watch, Watch::Morning);
    assert_eq!(state.bells, 8);

    let dt = Local::now().with_hour(6).and_then(|d| d.with_minute(30)).unwrap();
    let state = watch_and_bells_for_time(zoned(&dt));
    assert_eq!(state.watch, Watch::Morning);
    assert_eq!(state.bells, 5);
}

#[test]
fn test_forenoon_watch() {
    let dt = Local::now().with_hour(8).and_then(|d| d.with_minute(0)).unwrap();
    let state = watch_and_bells_for_time(zoned(&dt));
    assert_eq!(state.watch, Watch::Forenoon);
    assert_eq!(state.bells, 8);

    let dt = Local::now().with_hour(10).and_then(|d| d.with_minute(30)).unwrap();
    let state = watch_and_bells_for_time(zoned(&dt));
    assert_eq!(state.watch, Watch::Forenoon);
    assert_eq!(state.bells, 5);
}

#[test]
fn test_afternoon_watch() {
    let dt = Local::now().with_hour(12).and_then(|d| d.with_minute(0)).unwrap();
    let state = watch_and_bells_for_time(zoned(&dt));
    assert_eq!(state.watch, Watch::Afternoon);
    assert_eq!(state.bells, 8);

    let dt = Local::now().with_hour(14).and_then(|d| d.with_minute(30)).unwrap();
    let state = watch_and_bells_for_time(zoned(&dt));
    assert_eq!(state.watch, Watch::Afternoon);
    assert_eq!(state.bells, 5);
}

#[test]
fn test_first_dog_watch() {
    let dt = Local::now().with_hour(16).and_then(|d| d.with_minute(0)).unwrap();
    let state = watch_and_bells_for_time(zoned(&dt));
    assert_eq!(state.watch, Watch::FirstDog);
    assert_eq!(state.bells, 8);

    let dt = Local::now().with_hour(16).and_then(|d| d.with_minute(30)).unwrap();
    let state = watch_and_bells_for_time(zoned(&dt));
    assert_eq!(state.watch, Watch::FirstDog);
    assert_eq!(state.bells, 1);
}

#[test]
fn test_last_dog_watch() {
    let dt = Local::now().with_hour(18).and_then(|d| d.with_minute(0)).unwrap();
    let state = watch_and_bells_for_time(zoned(&dt));
    assert_eq!(state.watch, Watch::LastDog);
    assert_eq!(state.bells, 4);

    let dt = Local::now().with_hour(18).and_then(|d| d.with_minute(30)).unwrap();
    let state = watch_and_bells_for_time(zoned(&dt));
    assert_eq!(state.watch, Watch::LastDog);
    assert_eq!(state.bells, 1);

    let dt = Local::now().with_hour(19).and_then(|d| d.with_minute(30)).unwrap();
    let state = watch_and_bells_for_time(zoned(&dt));
    assert_eq!(state.watch, Watch::LastDog);
    assert_eq!(state.bells, 3);
}

#[test]
fn test_bell_count_text() {
    assert_eq!(bell_count_text(1), "One");
    assert_eq!(bell_count_text(2), "Two");
    assert_eq!(bell_count_text(3), "Three");
    assert_eq!(bell_count_text(4), "Four");
    assert_eq!(bell_count_text(5), "Five");
    assert_eq!(bell_count_text(6), "Six");
    assert_eq!(bell_count_text(7), "Seven");
    assert_eq!(bell_count_text(8), "Eight");
}

#[test]
fn test_clock_state_tooltip() {
    let state = ClockState { watch: Watch::Morning, bells: 4 };
    let tooltip = state.tooltip();
    assert_eq!(tooltip, "Four bells of the morning watch");
}

#[test]
fn test_clock_state_tooltip_singular() {
    let state = ClockState { watch: Watch::FirstDog, bells: 1 };
    let tooltip = state.tooltip();
    assert_eq!(tooltip, "One bell of the first dog watch");
}

#[test]
fn every_watch_has_its_spoken_name() {
    let names = [
        (Watch::First, "first"),
        (Watch::Middle, "middle"),
        (Watch::Morning, "morning"),
        (Watch::Forenoon, "forenoon"),
        (Watch::Afternoon, "afternoon"),
        (Watch::FirstDog, "first dog"),
        (Watch::LastDog, "last dog"),
    ];
    for (watch, name) in names {
        assert_eq!(watch.display_string(), name);
    }
}

#[test]
fn every_half_hour_strikes_one_to_eight_bells_and_the_last_dog_never_five() {
    for hour in 0..24 {
        for minute in [0, 29, 30, 59] {
            let state = state_at(hour, minute);
            assert!((1..=8).contains(&state.bells), "{hour}:{minute}");
            if state.watch == Watch::LastDog {
                assert!(state.bells <= 4, "{hour}:{minute}");
            }
        }
    }
}

#[test]
fn dog_watches_strike_eight_then_one_to_four_then_one_to_three() {
    let expected = [8, 1, 2, 3, 4, 1, 2, 3];
    let mut struck = Vec::new();
    for hour in 16..20 {
        for minute in [0, 30] {
            struck.push(state_at(hour, minute).bells);
        }
    }
    assert_eq!(struck, expected);
}

#[test]
fn bells_within_a_half_hour_do_not_change() {
    assert_eq!(state_at(9, 30), state_at(9, 59));
    assert_eq!(state_at(13, 0), state_at(13, 29));
    assert_eq!(state_at(9, 30).bells, 3);
}

#[test]
fn chimes_sound_pairs_then_a_single_strike() {
    assert_eq!(chime_plan(8), vec![Chime::Twice; 4]);
    assert_eq!(chime_plan(5), vec![Chime::Twice, Chime::Twice, Chime::Once]);
    assert_eq!(chime_plan(1), vec![Chime::Once]);
    for bells in 1..=8u32 {
        let strikes: u32 = chime_plan(bells)
            .iter()
            .map(|chime| match chime {
                Chime::Twice => 2,
                Chime::Once => 1,
            })
            .sum();
        assert_eq!(strikes, bells);
    }
}
