use chrono::{
    DateTime, Datelike, Duration as ChronoDuration, FixedOffset, Local, LocalResult, NaiveDateTime,
    Offset, TimeZone, Timelike, Utc,
};
use watch_bells::bells::watch_and_bells_for_time;
use watch_bells::clock::{Instant, LocalDateTime, LocalResolution, Zone, ZonedDateTime};
use watch_bells::schedule::{
    audio_start_authorised, audio_start_decision, boundary_event, boundary_status, claim_boundary,
    classify_boundary, duration_until, future_display_candidate, is_unique_half_hour_boundary_with,
    next_display_wake, next_display_wake_with, next_half_hour, next_half_hour_naive,
    next_half_hour_with, scheduler_wake, AudioStart, BoundaryEvent, BoundaryStatus, Delay,
    SchedulerWake,
};
use watch_bells::bells::{ClockState, Watch};

fn zoned<Tz: TimeZone>(dt: &DateTime<Tz>) -> ZonedDateTime {
    ZonedDateTime {
        utc: Instant { secs: dt.timestamp(), nanos: dt.timestamp_subsec_nanos() },
        offset_secs: dt.offset().fix().local_minus_utc(),
    }
}

fn instant(dt: DateTime<Utc>) -> Instant {
    Instant { secs: dt.timestamp(), nanos: dt.timestamp_subsec_nanos() }
}

fn utc_of(i: Instant) -> DateTime<Utc> {
    DateTime::from_timestamp(i.secs, i.nanos).expect("instant in range")
}

fn chrono_of(z: ZonedDateTime) -> DateTime<FixedOffset> {
    utc_of(z.utc).with_timezone(&FixedOffset::east_opt(z.offset_secs).expect("valid offset"))
}

fn naive_of(l: LocalDateTime) -> NaiveDateTime {
    DateTime::from_timestamp(l.secs, l.nanos).expect("reading in range").naive_utc()
}

fn resolution_of(result: LocalResult<DateTime<FixedOffset>>) -> LocalResolution {
    match result {
        LocalResult::Single(a) => LocalResolution::Single(zoned(&a)),
        LocalResult::Ambiguous(a, b) => LocalResolution::Ambiguous(zoned(&a), zoned(&b)),
        LocalResult::None => LocalResolution::Nonexistent,
    }
}


fn local_test_boundary() -> DateTime<Utc> {
    Local::now()
        .with_hour(12)
        .and_then(|dt| dt.with_minute(0))
        .and_then(|dt| dt.with_second(0))
        .and_then(|dt| dt.with_nanosecond(0))
        .expect("failed to construct local test boundary")
        .with_timezone(&Utc)
}

fn status(boundary: DateTime<Utc>, now: DateTime<Utc>) -> BoundaryStatus {
    boundary_status(instant(boundary), instant(now))
}

fn fixed_time(hour: u32, minute: u32, second: u32) -> DateTime<FixedOffset> {
    FixedOffset::east_opt(0)
        .expect("failed to construct test offset")
        .with_ymd_and_hms(2026, 1, 2, hour, minute, second)
        .single()
        .expect("failed to construct fixed test time")
}

fn fixed_offset(hours: i32) -> FixedOffset {
    FixedOffset::east_opt(hours * 60 * 60).expect("failed to construct test offset")
}

fn fallback_resolution(candidate: LocalDateTime) -> LocalResolution {
    let candidate = naive_of(candidate);
    let daylight = fixed_offset(-4);
    let standard = fixed_offset(-5);

    resolution_of(match (candidate.hour(), candidate.minute()) {
        (1, 0) | (1, 30) => LocalResult::Ambiguous(
            daylight
                .from_local_datetime(&candidate)
                .single()
                .expect("failed to construct daylight fallback occurrence"),
            standard
                .from_local_datetime(&candidate)
                .single()
                .expect("failed to construct standard fallback occurrence"),
        ),
        _ if candidate.hour() >= 2 => LocalResult::Single(
            standard
                .from_local_datetime(&candidate)
                .single()
                .expect("failed to construct standard time"),
        ),
        _ => LocalResult::Single(
            daylight
                .from_local_datetime(&candidate)
                .single()
                .expect("failed to construct daylight time"),
        ),
    })
}

fn spring_gap_resolution(candidate: LocalDateTime) -> LocalResolution {
    let candidate = naive_of(candidate);
    let standard = fixed_offset(-5);
    let daylight = fixed_offset(-4);

    resolution_of(match candidate.hour() {
        2 => LocalResult::None,
        3.. => LocalResult::Single(
            daylight
                .from_local_datetime(&candidate)
                .single()
                .expect("failed to construct daylight time"),
        ),
        _ => LocalResult::Single(
            standard
                .from_local_datetime(&candidate)
                .single()
                .expect("failed to construct standard time"),
        ),
    })
}

fn next_boundary_utc(now: DateTime<Utc>) -> DateTime<Utc> {
    let next = next_half_hour(zoned(&now.with_timezone(&Local)), Zone::Local)
        .expect("failed to calculate next test boundary");
    utc_of(next.utc)
}

#[test]
fn exact_boundary_is_fresh() {
    let boundary = local_test_boundary();
    assert_eq!(status(boundary, boundary), BoundaryStatus::Fresh);
}

#[test]
fn milliseconds_late_boundary_is_fresh() {
    let boundary = local_test_boundary();
    let now = boundary + ChronoDuration::milliseconds(50);
    assert_eq!(status(boundary, now), BoundaryStatus::Fresh);
}

#[test]
fn boundary_just_inside_grace_period_is_fresh() {
    let boundary = local_test_boundary();
    let now = boundary + ChronoDuration::milliseconds(4_999);
    assert_eq!(status(boundary, now), BoundaryStatus::Fresh);
}

#[test]
fn boundary_at_grace_period_limit_is_still_fresh() {
    let boundary = local_test_boundary();
    let now = boundary + ChronoDuration::seconds(5);
    assert_eq!(status(boundary, now), BoundaryStatus::Fresh);
}

#[test]
fn boundary_just_outside_grace_period_is_stale() {
    let boundary = local_test_boundary();
    let now = boundary + ChronoDuration::milliseconds(5_001);
    assert_eq!(status(boundary, now), BoundaryStatus::Stale);
}

#[test]
fn boundary_before_intended_instant_is_rejected() {
    let boundary = local_test_boundary();
    let now = boundary - ChronoDuration::milliseconds(1);
    assert_eq!(status(boundary, now), BoundaryStatus::BeforeBoundary);
}

#[test]
fn stale_scheduler_wake_is_rejected_and_resynchronises() {
    let boundary = local_test_boundary();
    let now = boundary + ChronoDuration::seconds(20);
    assert_eq!(status(boundary, now), BoundaryStatus::Stale);

    let next = next_boundary_utc(now);
    assert!(next > now);
}

#[test]
fn stale_event_loop_delivery_is_rejected() {
    let boundary = local_test_boundary();
    let queued_until = boundary + ChronoDuration::minutes(42);
    assert_eq!(status(boundary, queued_until), BoundaryStatus::Stale);
}

#[test]
fn stale_audio_start_is_rejected() {
    let boundary = local_test_boundary();
    let audio_thread_now = boundary + ChronoDuration::seconds(6);
    let state = watch_and_bells_for_time(zoned(&boundary.with_timezone(&Local)));
    assert!(!audio_start_authorised(instant(boundary), state, instant(audio_thread_now)));
}

#[test]
fn forward_clock_jump_skips_old_boundary_and_uses_future_boundary() {
    let boundary = local_test_boundary();
    let now = boundary + ChronoDuration::hours(2);
    assert_eq!(status(boundary, now), BoundaryStatus::Stale);

    let next = next_boundary_utc(now);
    assert!(next > now);
    assert_ne!(next, boundary);
}

#[test]
fn backward_clock_jump_rejects_old_authorisation() {
    let boundary = local_test_boundary();
    let now = boundary - ChronoDuration::seconds(1);
    assert_eq!(status(boundary, now), BoundaryStatus::BeforeBoundary);

    let resynchronised = next_boundary_utc(now);
    assert_eq!(resynchronised, boundary);
    assert!(resynchronised > now);
}

#[test]
fn invalid_local_boundary_is_rejected_conservatively() {
    let boundary = local_test_boundary() + ChronoDuration::minutes(1);
    let now = boundary + ChronoDuration::seconds(1);
    assert_eq!(status(boundary, now), BoundaryStatus::InvalidLocalBoundary);
}

#[test]
fn duplicate_boundary_cannot_be_claimed_twice() {
    let boundary = instant(local_test_boundary());
    let earlier = instant(local_test_boundary() - ChronoDuration::minutes(30));
    let mut last_boundary = None;

    assert!(claim_boundary(&mut last_boundary, boundary));
    assert!(!claim_boundary(&mut last_boundary, boundary));
    assert!(!claim_boundary(&mut last_boundary, earlier));
}

#[test]
fn distinct_consecutive_boundaries_can_each_be_claimed() {
    let first = local_test_boundary();
    let second = first + ChronoDuration::minutes(30);
    let mut last_boundary = None;

    assert_eq!(status(first, first), BoundaryStatus::Fresh);
    assert!(claim_boundary(&mut last_boundary, instant(first)));
    assert_eq!(status(second, second), BoundaryStatus::Fresh);
    assert!(claim_boundary(&mut last_boundary, instant(second)));
}

#[test]
fn stale_boundary_does_not_suppress_next_legitimate_boundary() {
    let stale = local_test_boundary();
    let next = stale + ChronoDuration::minutes(30);
    let mut last_boundary = None;

    assert_eq!(status(stale, stale + ChronoDuration::seconds(20)), BoundaryStatus::Stale);
    assert_eq!(status(next, next), BoundaryStatus::Fresh);
    assert!(claim_boundary(&mut last_boundary, instant(next)));
}

#[test]
fn startup_shortly_after_boundary_schedules_only_a_future_boundary() {
    let boundary = local_test_boundary();
    let startup = boundary + ChronoDuration::seconds(3);
    assert_eq!(status(boundary, startup), BoundaryStatus::Fresh);

    let next = next_boundary_utc(startup);
    assert!(next > startup);
    assert_ne!(next, boundary);
}

#[test]
fn startup_away_from_boundary_schedules_only_a_future_boundary() {
    let previous = local_test_boundary();
    let startup = previous + ChronoDuration::minutes(17);

    let next = next_boundary_utc(startup);
    assert!(next > startup);
    assert_ne!(next, previous);
}

#[test]
fn next_half_hour_handles_representative_local_times() {
    let cases = [
        (fixed_time(0, 0, 0), 0, 30, 2),
        (fixed_time(10, 0, 0), 10, 30, 2),
        (fixed_time(10, 29, 59), 10, 30, 2),
        (fixed_time(10, 30, 0), 11, 0, 2),
        (fixed_time(10, 59, 30), 11, 0, 2),
        (fixed_time(23, 59, 59), 0, 0, 3),
    ];

    for (now, expected_hour, expected_minute, expected_day) in cases {
        let next = next_half_hour(zoned(&now), Zone::Fixed(0)).expect("failed to find next half-hour");
        let next = chrono_of(next);
        assert!(next > now);
        assert_eq!(next.hour(), expected_hour);
        assert_eq!(next.minute(), expected_minute);
        assert_eq!(next.day(), expected_day);
        assert_eq!(next.second(), 0);
        assert_eq!(next.nanosecond(), 0);
    }
}

#[test]
fn explicit_dst_gap_skips_nonexistent_half_hours_for_scheduling() {
    let standard = fixed_offset(-5);
    let before_gap = standard
        .with_ymd_and_hms(2026, 3, 8, 1, 59, 0)
        .single()
        .expect("failed to construct time before DST gap");

    let next = next_half_hour_with(&zoned(&before_gap), spring_gap_resolution)
        .expect("failed to skip explicit DST gap");
    let next = chrono_of(next);
    assert_eq!(next.hour(), 3);
    assert_eq!(next.minute(), 0);
    assert_eq!(next.offset().local_minus_utc(), -4 * 60 * 60);
}

#[test]
fn explicit_dst_fallback_display_wake_progresses_through_repeated_hour() {
    let daylight = fixed_offset(-4);
    let standard = fixed_offset(-5);
    let before_fallback = daylight
        .with_ymd_and_hms(2026, 11, 1, 0, 30, 0)
        .single()
        .expect("failed to construct time before DST fallback");

    let next_audible = next_half_hour_with(&zoned(&before_fallback), fallback_resolution)
        .expect("failed to find unique post-fallback boundary");
    let next_audible = chrono_of(next_audible);
    assert_eq!((next_audible.hour(), next_audible.minute()), (2, 0));
    assert_eq!(next_audible.offset().local_minus_utc(), -5 * 60 * 60);

    let first_hour = next_display_wake_with(&zoned(&before_fallback), fallback_resolution)
        .expect("failed to find first fallback display wake");
    let first_hour = chrono_of(first_hour);
    assert_eq!((first_hour.hour(), first_hour.minute()), (1, 0));
    assert_eq!(first_hour.offset().local_minus_utc(), -4 * 60 * 60);

    let first_half_hour = next_display_wake_with(
        &zoned(&(first_hour + ChronoDuration::seconds(1))),
        fallback_resolution,
    )
    .expect("failed to find second fallback display wake");
    let first_half_hour = chrono_of(first_half_hour);
    assert_eq!((first_half_hour.hour(), first_half_hour.minute()), (1, 30));
    assert_eq!(first_half_hour.offset().local_minus_utc(), -4 * 60 * 60);

    let after_repeated_hour = next_display_wake_with(
        &zoned(&(first_half_hour + ChronoDuration::seconds(1))),
        fallback_resolution,
    )
    .expect("failed to find post-fallback display wake");
    let after_repeated_hour = chrono_of(after_repeated_hour);
    assert_eq!((after_repeated_hour.hour(), after_repeated_hour.minute()), (2, 0));
    assert_eq!(after_repeated_hour.offset().local_minus_utc(), -5 * 60 * 60);

    let second_occurrence = standard
        .with_ymd_and_hms(2026, 11, 1, 1, 0, 0)
        .single()
        .expect("failed to construct repeated-hour occurrence");
    let second_half_hour = next_display_wake_with(
        &zoned(&(second_occurrence + ChronoDuration::seconds(1))),
        fallback_resolution,
    )
    .expect("failed to find repeated-hour display wake");
    let second_half_hour = chrono_of(second_half_hour);
    assert_eq!((second_half_hour.hour(), second_half_hour.minute()), (1, 30));
    assert_eq!(second_half_hour.offset().local_minus_utc(), -5 * 60 * 60);
}

#[test]
fn explicit_dst_fallback_boundaries_remain_unauthorised() {
    let daylight = fixed_offset(-4);
    let standard = fixed_offset(-5);

    for local in [
        daylight.with_ymd_and_hms(2026, 11, 1, 1, 0, 0).single().expect("daylight 01:00"),
        standard.with_ymd_and_hms(2026, 11, 1, 1, 0, 0).single().expect("standard 01:00"),
        daylight.with_ymd_and_hms(2026, 11, 1, 1, 30, 0).single().expect("daylight 01:30"),
        standard.with_ymd_and_hms(2026, 11, 1, 1, 30, 0).single().expect("standard 01:30"),
    ] {
        assert!(!is_unique_half_hour_boundary_with(
            instant(local.with_timezone(&Utc)),
            zoned(&local),
            fallback_resolution,
        ));
    }

    let unique = standard
        .with_ymd_and_hms(2026, 11, 1, 2, 0, 0)
        .single()
        .expect("failed to construct unique post-fallback boundary");
    assert!(is_unique_half_hour_boundary_with(
        instant(unique.with_timezone(&Utc)),
        zoned(&unique),
        fallback_resolution,
    ));
}

#[test]
fn explicit_dst_gap_does_not_produce_a_display_candidate_for_missing_time() {
    let standard = fixed_offset(-5);
    let before_gap = standard
        .with_ymd_and_hms(2026, 3, 8, 1, 59, 0)
        .single()
        .expect("failed to construct time before DST gap");
    let nonexistent = NaiveDateTime::new(
        before_gap.date_naive(),
        chrono::NaiveTime::from_hms_opt(2, 0, 0).expect("failed to construct gap time"),
    );
    let nonexistent = LocalDateTime {
        secs: nonexistent.and_utc().timestamp(),
        nanos: nonexistent.and_utc().timestamp_subsec_nanos(),
    };

    assert!(future_display_candidate(&zoned(&before_gap), spring_gap_resolution(nonexistent)).is_none());
}

#[test]
fn next_half_hour_naive_drops_seconds_and_moves_to_the_next_mark() {
    let reading = |h: u32, m: u32, s: u32| {
        let n = fixed_time(h, m, s).naive_utc();
        LocalDateTime { secs: n.and_utc().timestamp(), nanos: 0 }
    };
    assert_eq!(next_half_hour_naive(reading(10, 29, 59)), Some(reading(10, 30, 0)));
    assert_eq!(next_half_hour_naive(reading(10, 30, 0)), Some(reading(11, 0, 0)));
    assert_eq!(next_half_hour_naive(reading(23, 45, 1)).map(|l| l.secs), Some(reading(23, 45, 1).secs - 23 * 3600 - 45 * 60 - 1 + 86400));
}

#[test]
fn fixed_offset_display_wake_is_the_next_half_hour() {
    let now = FixedOffset::east_opt(5 * 3600 + 1800)
        .unwrap()
        .with_ymd_and_hms(2026, 6, 1, 7, 10, 0)
        .single()
        .unwrap();
    let wake = chrono_of(next_display_wake(zoned(&now), Zone::Fixed(5 * 3600 + 1800)).unwrap());
    assert_eq!((wake.hour(), wake.minute()), (7, 30));
    assert_eq!(
        next_display_wake(zoned(&now), Zone::Fixed(19800)),
        next_half_hour(zoned(&now), Zone::Fixed(19800))
    );
}

#[test]
fn ambiguous_display_candidate_takes_the_earlier_future_occurrence() {
    let daylight = fixed_offset(-4).with_ymd_and_hms(2026, 11, 1, 1, 0, 0).single().unwrap();
    let standard = fixed_offset(-5).with_ymd_and_hms(2026, 11, 1, 1, 0, 0).single().unwrap();
    let both = LocalResolution::Ambiguous(zoned(&standard), zoned(&daylight));
    let before = zoned(&(daylight - ChronoDuration::minutes(5)));
    assert_eq!(future_display_candidate(&before, both), Some(zoned(&daylight)));
    let between = zoned(&(daylight + ChronoDuration::minutes(5)));
    assert_eq!(future_display_candidate(&between, both), Some(zoned(&standard)));
    let after = zoned(&(standard + ChronoDuration::minutes(5)));
    assert_eq!(future_display_candidate(&after, both), None);
}

#[test]
fn classification_by_timing_and_uniqueness() {
    let boundary = Instant { secs: 1_800_000_000, nanos: 0 };
    let at = |secs: i64, nanos: u32| Instant { secs, nanos };
    assert_eq!(classify_boundary(false, boundary, boundary), BoundaryStatus::InvalidLocalBoundary);
    assert_eq!(classify_boundary(true, boundary, at(1_800_000_005, 0)), BoundaryStatus::Fresh);
    assert_eq!(classify_boundary(true, boundary, at(1_800_000_005, 1)), BoundaryStatus::Stale);
    assert_eq!(classify_boundary(true, boundary, at(1_799_999_999, 999_999_999)), BoundaryStatus::BeforeBoundary);
}

#[test]
fn waiting_never_goes_negative() {
    let now = Instant { secs: 100, nanos: 900_000_000 };
    assert_eq!(duration_until(now, Instant { secs: 102, nanos: 100_000_000 }), Delay { secs: 1, nanos: 200_000_000 });
    assert_eq!(duration_until(now, Instant { secs: 99, nanos: 0 }), Delay { secs: 0, nanos: 0 });
}

#[test]
fn a_consumed_boundary_never_rings_again() {
    let state = ClockState { watch: Watch::Forenoon, bells: 3 };
    let boundary = Instant { secs: 1_800_000_000, nanos: 0 };
    let mut last = None;
    let fresh = BoundaryStatus::Fresh;
    assert_eq!(boundary_event(fresh, state, state, state, boundary, false, &mut last), BoundaryEvent::Ring);
    assert_eq!(last, Some(boundary));
    assert_eq!(boundary_event(fresh, state, state, state, boundary, false, &mut last), BoundaryEvent::Duplicate);
    let other = ClockState { watch: Watch::Forenoon, bells: 4 };
    let next = Instant { secs: 1_800_001_800, nanos: 0 };
    assert_eq!(boundary_event(fresh, state, other, state, next, false, &mut last), BoundaryEvent::StateChanged);
    assert_eq!(boundary_event(BoundaryStatus::Stale, state, state, state, next, false, &mut last), BoundaryEvent::Rejected(BoundaryStatus::Stale));
    assert_eq!(boundary_event(fresh, state, state, state, next, true, &mut last), BoundaryEvent::MutedSkip);
    assert_eq!(last, Some(next));
}

#[test]
fn scheduler_reports_each_boundary_once() {
    let boundary = Instant { secs: 1_800_000_000, nanos: 0 };
    let sync = Instant { secs: 1_799_998_200, nanos: 0 };
    let mut last = None;
    assert_eq!(scheduler_wake(sync, boundary, BoundaryStatus::BeforeBoundary, &mut last), SchedulerWake::DisplayOnly);
    assert_eq!(scheduler_wake(boundary, boundary, BoundaryStatus::BeforeBoundary, &mut last), SchedulerWake::Rejected(BoundaryStatus::BeforeBoundary));
    assert_eq!(scheduler_wake(boundary, boundary, BoundaryStatus::Fresh, &mut last), SchedulerWake::Deliver);
    assert_eq!(scheduler_wake(boundary, boundary, BoundaryStatus::Fresh, &mut last), SchedulerWake::Duplicate);
}

#[test]
fn audio_needs_a_fresh_boundary_and_an_unchanged_state() {
    let state = ClockState { watch: Watch::First, bells: 8 };
    let changed = ClockState { watch: Watch::First, bells: 1 };
    assert_eq!(audio_start_decision(BoundaryStatus::Fresh, state, state), AudioStart::Authorised);
    assert_eq!(audio_start_decision(BoundaryStatus::Fresh, changed, state), AudioStart::StateChanged);
    assert_eq!(audio_start_decision(BoundaryStatus::Stale, state, state), AudioStart::Rejected(BoundaryStatus::Stale));
}
