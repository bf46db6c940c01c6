//! Half-hour boundaries: when one is due, whether it may still be struck,
//! which boundary comes next on a wall clock that may skip or repeat times,
//! and the decisions of the scheduler and of the event loop that together
//! strike each boundary at most once.

use crate::bells::{watch_and_bells_for_time, ClockState};
use crate::clock::{
    precedes, resolution_reads_as, Instant, LocalDateTime, LocalResolution, ZonedDateTime, Zone,
    floor_mod, MAX_SECONDS, MIN_SECONDS, SECONDS_PER_DAY, SECONDS_PER_HALF_HOUR, SECONDS_PER_HOUR,
    SECONDS_PER_MINUTE,
};
use vstd::arithmetic::div_mod::{lemma_fundamental_div_mod, lemma_fundamental_div_mod_converse};
use vstd::prelude::*;

verus! {

/// How late, in nanoseconds, a boundary may still be struck.
pub const MAX_BELL_LATENESS_NANOS: i64 = 5_000_000_000;

/// Whether a boundary may be struck now.
#[derive(Clone, Copy, Debug, PartialEq, Eq, Structural)]
pub enum BoundaryStatus {
    Fresh,
    BeforeBoundary,
    Stale,
    InvalidLocalBoundary,
}

/// The status of a boundary by timing alone: not yet reached, reached at
/// most five seconds ago, or older.
pub open spec fn timing_status(boundary: Instant, now: Instant) -> BoundaryStatus {
    if now.position() < boundary.position() {
        BoundaryStatus::BeforeBoundary
    } else if now.position() - boundary.position() <= MAX_BELL_LATENESS_NANOS {
        BoundaryStatus::Fresh
    } else {
        BoundaryStatus::Stale
    }
}

/// The status of `boundary` at `now`, given whether the boundary is a unique
/// half-hour on the local wall clock.
pub fn classify_boundary(locally_unique: bool, boundary: Instant, now: Instant) -> (r:
    BoundaryStatus)
    requires
        boundary.wf(),
        now.wf(),
    ensures
        r == if !locally_unique {
            BoundaryStatus::InvalidLocalBoundary
        } else {
            timing_status(boundary, now)
        },
{
    if !locally_unique {
        return BoundaryStatus::InvalidLocalBoundary;
    }
    if now.is_before(&boundary) {
        return BoundaryStatus::BeforeBoundary;
    }
    let late_secs = now.secs - boundary.secs;
    let late_nanos = now.nanos as i64 - boundary.nanos as i64;
    if late_secs < 5 || (late_secs == 5 && late_nanos <= 0) {
        BoundaryStatus::Fresh
    } else {
        BoundaryStatus::Stale
    }
}

/// Whether a wall-clock reading is on the hour or the half-hour exactly.
pub open spec fn is_half_hour_mark(local: LocalDateTime) -> bool {
    (local.spec_minute() == 0 || local.spec_minute() == 30) && local.spec_second() == 0
        && local.nanos == 0
}

/// Whether `z` is `boundary` read in the zone by a unique date-time.
pub open spec fn resolves_uniquely_to(r: LocalResolution, boundary: Instant) -> bool {
    r matches LocalResolution::Single(z) && z.utc == boundary
}

/// Whether `boundary`, shown as `local`, is a half-hour that the zone's wall
/// clock reads only once: its reading is a half-hour mark and `resolve`
/// maps that reading back to `boundary` alone.
pub fn is_unique_half_hour_boundary_with<F: Fn(LocalDateTime) -> LocalResolution>(
    boundary: Instant,
    local: ZonedDateTime,
    resolve: F,
) -> (r: bool)
    requires
        local.local_in_range(),
        forall|x: LocalDateTime| x.wf() ==> call_requires(resolve, (x,)),
    ensures
        r ==> is_half_hour_mark(local.spec_local()) && exists|res: LocalResolution|
            call_ensures(resolve, (local.spec_local(),), res) && resolves_uniquely_to(res, boundary),
        !r ==> !is_half_hour_mark(local.spec_local()) || exists|res: LocalResolution|
            call_ensures(resolve, (local.spec_local(),), res) && !resolves_uniquely_to(
                res,
                boundary,
            ),
{
    let reading = local.local();
    let minute = reading.minute();
    if !((minute == 0 || minute == 30) && reading.second() == 0 && reading.nanos == 0) {
        return false;
    }
    let res = resolve(reading);
    let unique = match res {
        LocalResolution::Single(resolved) => resolved.utc == boundary,
        _ => false,
    };
    assert(call_ensures(resolve, (local.spec_local(),), res));
    assert(unique == resolves_uniquely_to(res, boundary));
    unique
}

/// Instants whose wall-clock reading is in range in every zone.
pub open spec fn far_from_calendar_edges(instant: Instant) -> bool {
    instant.wf() && MIN_SECONDS + SECONDS_PER_DAY <= instant.secs <= MAX_SECONDS
        - SECONDS_PER_DAY
}

/// How `zone` judges `boundary`, read by it as `local`, when the judgement
/// is `unique`: a unique half-hour exactly when the reading is a half-hour
/// mark and the zone resolves that reading to `boundary` alone.
pub open spec fn zone_judges(zone: Zone, local: ZonedDateTime, boundary: Instant, unique: bool) -> bool {
    &&& unique ==> is_half_hour_mark(local.spec_local()) && exists|res: LocalResolution|
        call_ensures(Zone::resolve, (&zone, local.spec_local()), res) && resolves_uniquely_to(
            res,
            boundary,
        )
    &&& !unique ==> !is_half_hour_mark(local.spec_local()) || exists|res: LocalResolution|
        call_ensures(Zone::resolve, (&zone, local.spec_local()), res) && !resolves_uniquely_to(
            res,
            boundary,
        )
}

/// Whether `unique` is how the machine's zone judges `boundary`: the zone
/// reads the boundary as some `local`, and judges it from that reading.
pub open spec fn local_zone_judges(boundary: Instant, unique: bool) -> bool {
    exists|local: ZonedDateTime|
        call_ensures(Zone::at, (&Zone::Local, boundary), local) && zone_judges(
            Zone::Local,
            local,
            boundary,
            unique,
        )
}

/// Whether `boundary` is a half-hour that the machine's wall clock reads
/// only once: the machine's zone reads the boundary, and the reading is a
/// half-hour mark that the zone resolves to the boundary alone. What the
/// zone answers depends on the machine; whatever it answers, a boundary
/// that passes falls on a whole second.
pub fn is_local_half_hour_boundary(boundary: Instant) -> (r: bool)
    requires
        far_from_calendar_edges(boundary),
    ensures
        local_zone_judges(boundary, r),
        r ==> boundary.nanos == 0,
{
    let local = Zone::Local.at(boundary);
    let resolve = |reading: LocalDateTime| -> (res: LocalResolution)
        requires
            reading.wf(),
        ensures
            resolution_reads_as(res, reading),
            call_ensures(Zone::resolve, (&Zone::Local, reading), res),
        { Zone::Local.resolve(reading) };
    let r = is_unique_half_hour_boundary_with(boundary, local, resolve);
    assert(zone_judges(Zone::Local, local, boundary, r));
    r
}

/// The status of `boundary` judged `unique` or not at `now`: invalid when
/// it is not unique, otherwise by timing.
pub open spec fn status_rule(unique: bool, boundary: Instant, now: Instant) -> BoundaryStatus {
    if !unique {
        BoundaryStatus::InvalidLocalBoundary
    } else {
        timing_status(boundary, now)
    }
}

/// Whether `status` is the status of `boundary` at `now` on this machine:
/// the status of the machine zone's judgement of it.
pub open spec fn local_status(boundary: Instant, now: Instant, status: BoundaryStatus) -> bool {
    exists|unique: bool|
        local_zone_judges(boundary, unique) && status == status_rule(unique, boundary, now)
}

/// The status of `boundary` at `now` on this machine: invalid when the
/// boundary is not a unique local half-hour, otherwise by timing.
pub fn boundary_status(boundary: Instant, now: Instant) -> (r: BoundaryStatus)
    requires
        far_from_calendar_edges(boundary),
        now.wf(),
    ensures
        local_status(boundary, now, r),
        r == BoundaryStatus::InvalidLocalBoundary || r == timing_status(boundary, now),
        r != BoundaryStatus::InvalidLocalBoundary ==> boundary.nanos == 0,
{
    let unique = is_local_half_hour_boundary(boundary);
    let r = classify_boundary(unique, boundary, now);
    assert(r == status_rule(unique, boundary, now));
    r
}

/// Whether `boundary` can be claimed after `last`: nothing was claimed yet,
/// or `boundary` lies strictly after the last claim.
pub open spec fn claimable(last: Option<Instant>, boundary: Instant) -> bool {
    !(last matches Some(l) && !precedes(l, boundary))
}

/// Records `boundary` as the last one claimed unless it is not later than
/// the last claimed one; returns whether it was claimed.
pub fn claim_boundary(last_boundary: &mut Option<Instant>, boundary: Instant) -> (r: bool)
    ensures
        r == claimable(*old(last_boundary), boundary),
        r ==> *final(last_boundary) == Some(boundary),
        !r ==> *final(last_boundary) == *old(last_boundary),
{
    if let Some(last) = *last_boundary {
        if !last.is_before(&boundary) {
            return false;
        }
    }
    *last_boundary = Some(boundary);
    true
}

/// The start of the half-hour that holds second `secs`.
pub open spec fn half_hour_floor(secs: int) -> int {
    secs - secs % 1800
}

/// The start of the minute that holds second `secs`.
pub open spec fn minute_floor(secs: int) -> int {
    secs - secs % 60
}

/// Whether the calendar can step from `local` to the next half-hour: from
/// minute 30 on, the next hour must be in range.
pub open spec fn next_half_hour_defined(local: LocalDateTime) -> bool {
    local.spec_minute() >= 30 ==> minute_floor(local.secs as int) + 3600 <= MAX_SECONDS
}

/// The next half-hour mark strictly after `local`.
pub open spec fn next_half_hour_after(local: LocalDateTime) -> LocalDateTime {
    LocalDateTime { secs: (half_hour_floor(local.secs as int) + 1800) as i64, nanos: 0 }
}

/// The half-hour floor of a second count is its hour floor, plus half an
/// hour from minute 30 on; a second count that is a multiple of 1800 reads
/// minute 0 or 30 and second 0.
pub proof fn lemma_half_hour_floor(secs: int)
    ensures
        ({
            let m = (secs / 60) % 60;
            half_hour_floor(secs) == minute_floor(secs) - m * 60 + if m >= 30 {
                1800int
            } else {
                0
            }
        }),
        half_hour_floor(secs) % 1800 == 0,
        half_hour_floor(secs) <= secs < half_hour_floor(secs) + 1800,
{
    let q = secs / 60;
    let r = secs % 60;
    let p = q / 60;
    let m = q % 60;
    lemma_fundamental_div_mod(secs, 60);
    lemma_fundamental_div_mod(q, 60);
    let k = 2 * p + if m >= 30 {
        1int
    } else {
        0
    };
    let b = 60 * m + r - if m >= 30 {
        1800int
    } else {
        0
    };
    assert(secs == k * 1800 + b) by (nonlinear_arith)
        requires
            secs == 60 * q + r,
            q == 60 * p + m,
            k == 2 * p + if m >= 30 {
                1int
            } else {
                0
            },
            b == 60 * m + r - if m >= 30 {
                1800int
            } else {
                0
            },
    ;
    lemma_fundamental_div_mod_converse(secs, 1800, k, b);
    assert((k * 1800) % 1800 == 0) by (nonlinear_arith);
}

/// A multiple of 1800 seconds reads minute 0 or 30 and second 0.
pub proof fn lemma_multiple_of_half_hour_is_mark(secs: int)
    requires
        secs % 1800 == 0,
    ensures
        is_half_hour_mark(LocalDateTime { secs: secs as i64, nanos: 0 }) || !(i64::MIN <= secs
            <= i64::MAX),
{
    if i64::MIN <= secs <= i64::MAX {
        let k = secs / 1800;
        lemma_fundamental_div_mod(secs, 1800);
        lemma_fundamental_div_mod_converse(secs, 60, 30 * k, 0);
        lemma_fundamental_div_mod_converse(30 * k, 60, k / 2, 30 * (k % 2));
    }
}

/// The first wall-clock half-hour strictly after `now`: the seconds and
/// nanoseconds are dropped, then the minute is set to 30, or the hour
/// advanced and the minute set to 0.
pub fn next_half_hour_naive(now: LocalDateTime) -> (r: Option<LocalDateTime>)
    requires
        now.wf(),
        next_half_hour_defined(now),
    ensures
        r == Some(next_half_hour_after(now)),
        next_half_hour_after(now).wf(),
        is_half_hour_mark(next_half_hour_after(now)),
        total_nanos_of(now) < total_nanos_of(next_half_hour_after(now)),
        total_nanos_of(next_half_hour_after(now)) - total_nanos_of(now) <= 1800 * 1_000_000_000,
{
    let truncated = now.secs - floor_mod(now.secs, SECONDS_PER_MINUTE);
    let minute = now.minute() as i64;
    let secs = if minute < 30 {
        truncated - minute * 60 + SECONDS_PER_HALF_HOUR
    } else {
        truncated + SECONDS_PER_HOUR - minute * 60
    };
    proof {
        lemma_half_hour_floor(now.secs as int);
        lemma_multiple_of_half_hour_is_mark(half_hour_floor(now.secs as int) + 1800);
    }
    Some(LocalDateTime { secs, nanos: 0 })
}

/// Number of consecutive half-hours the searches try: two days' worth.
pub const SEARCH_HALF_HOURS: usize = 96;

/// The second count of the `k`-th half-hour mark (from 0) after the wall
/// clock reading of `now`.
pub open spec fn candidate_secs(now: ZonedDateTime, k: int) -> int {
    half_hour_floor(now.spec_local().secs as int) + 1800 * (k + 1)
}

/// The `k`-th half-hour mark (from 0) after the wall-clock reading of `now`.
pub open spec fn candidate(now: ZonedDateTime, k: int) -> LocalDateTime {
    LocalDateTime { secs: candidate_secs(now, k) as i64, nanos: 0 }
}

/// Whether scheduling takes a resolution: a unique date-time after `now`.
pub open spec fn scheduling_accepts(res: LocalResolution, now: ZonedDateTime) -> bool {
    res matches LocalResolution::Single(z) && precedes(now.utc, z.utc)
}

/// Some outcome of `resolve` on the `k`-th candidate is not taken by
/// scheduling.
pub open spec fn scheduling_rejects<F: Fn(LocalDateTime) -> LocalResolution>(
    resolve: F,
    now: ZonedDateTime,
    k: int,
) -> bool {
    exists|res: LocalResolution|
        call_ensures(resolve, (candidate(now, k),), res) && !scheduling_accepts(res, now)
}

/// What the starting point of the searches requires: the wall-clock
/// reading and the next half-hour after it are in range.
pub open spec fn search_start_ok(now: ZonedDateTime) -> bool {
    now.local_in_range() && next_half_hour_defined(now.spec_local())
}

/// The next scheduling instant after `now`: the first of the next 96
/// wall-clock half-hours that `resolve` maps to a unique date-time after
/// `now`. Half-hours that the clock skips or repeats are passed over.
pub fn next_half_hour_with<F: Fn(LocalDateTime) -> LocalResolution>(
    now: &ZonedDateTime,
    resolve: F,
) -> (r: Option<ZonedDateTime>)
    requires
        search_start_ok(*now),
        forall|x: LocalDateTime| x.wf() ==> call_requires(resolve, (x,)),
    ensures
        match r {
            Some(z) => exists|k: int|
                #![trigger candidate_secs(*now, k)]
                0 <= k < SEARCH_HALF_HOURS && candidate_secs(*now, k) <= MAX_SECONDS
                    && call_ensures(resolve, (candidate(*now, k),), LocalResolution::Single(z))
                    && precedes(now.utc, z.utc) && forall|j: int|
                    0 <= j < k ==> #[trigger] scheduling_rejects(resolve, *now, j),
            None => forall|j: int|
                0 <= j < SEARCH_HALF_HOURS && candidate_secs(*now, j) <= MAX_SECONDS
                    ==> #[trigger] scheduling_rejects(resolve, *now, j),
        },
{
    let mut next = match next_half_hour_naive(now.local()) {
        Some(first) => first,
        None => return None,
    };
    proof {
        lemma_half_hour_floor(now.spec_local().secs as int);
    }
    let mut i: usize = 0;
    while i < SEARCH_HALF_HOURS
        invariant
            search_start_ok(*now),
            forall|x: LocalDateTime| x.wf() ==> call_requires(resolve, (x,)),
            i <= SEARCH_HALF_HOURS,
            next == candidate(*now, i as int),
            next.wf(),
            candidate_secs(*now, i as int) <= MAX_SECONDS,
            forall|j: int| 0 <= j < i ==> #[trigger] scheduling_rejects(resolve, *now, j),
        decreases SEARCH_HALF_HOURS - i,
    {
        let res = resolve(next);
        let accepted = match res {
            LocalResolution::Single(z) => now.utc.is_before(&z.utc),
            _ => false,
        };
        assert(accepted == scheduling_accepts(res, *now));
        if accepted {
            if let LocalResolution::Single(z) = res {
                assert(candidate_secs(*now, i as int) <= MAX_SECONDS);
                return Some(z);
            }
        }
        assert(scheduling_rejects(resolve, *now, i as int)) by {
            assert(call_ensures(resolve, (candidate(*now, i as int),), res));
        }
        if next.secs > MAX_SECONDS - SECONDS_PER_HALF_HOUR {
            assert forall|j: int|
                0 <= j < SEARCH_HALF_HOURS && candidate_secs(*now, j) <= MAX_SECONDS implies
                #[trigger] scheduling_rejects(resolve, *now, j) by {
                if j > i {
                    assert(candidate_secs(*now, j) >= candidate_secs(*now, i as int) + 1800);
                }
            }
            return None;
        }
        next = LocalDateTime { secs: next.secs + SECONDS_PER_HALF_HOUR, nanos: 0 };
        i += 1;
    }
    None
}

/// Whether `candidate` lies after `now` on the time line.
pub fn is_after(candidate: &ZonedDateTime, now: &ZonedDateTime) -> (r: bool)
    ensures
        r == precedes(now.utc, candidate.utc),
{
    now.utc.is_before(&candidate.utc)
}

/// The date-time that display synchronisation takes from a resolution:
/// a unique date-time after `now`, or the earlier of the two occurrences
/// of a repeated reading that lie after `now`.
pub open spec fn display_choice(res: LocalResolution, now: ZonedDateTime) -> Option<ZonedDateTime> {
    match res {
        LocalResolution::Single(c) => if precedes(now.utc, c.utc) {
            Some(c)
        } else {
            None
        },
        LocalResolution::Ambiguous(a, b) => {
            let a_after = precedes(now.utc, a.utc);
            let b_after = precedes(now.utc, b.utc);
            if a_after && b_after {
                if precedes(b.utc, a.utc) {
                    Some(b)
                } else {
                    Some(a)
                }
            } else if a_after {
                Some(a)
            } else if b_after {
                Some(b)
            } else {
                None
            }
        },
        LocalResolution::Nonexistent => None,
    }
}

/// The date-time that display synchronisation takes from `result`.
pub fn future_display_candidate(now: &ZonedDateTime, result: LocalResolution) -> (r: Option<
    ZonedDateTime,
>)
    ensures
        r == display_choice(result, *now),
{
    match result {
        LocalResolution::Single(candidate) => if is_after(&candidate, now) {
            Some(candidate)
        } else {
            None
        },
        LocalResolution::Ambiguous(first, second) => {
            let first_after = is_after(&first, now);
            let second_after = is_after(&second, now);
            if first_after && second_after {
                if second.utc.is_before(&first.utc) {
                    Some(second)
                } else {
                    Some(first)
                }
            } else if first_after {
                Some(first)
            } else if second_after {
                Some(second)
            } else {
                None
            }
        },
        LocalResolution::Nonexistent => None,
    }
}

/// Some outcome of `resolve` on the `k`-th candidate gives display
/// synchronisation nothing.
pub open spec fn display_rejects<F: Fn(LocalDateTime) -> LocalResolution>(
    resolve: F,
    now: ZonedDateTime,
    k: int,
) -> bool {
    exists|res: LocalResolution|
        call_ensures(resolve, (candidate(now, k),), res) && display_choice(res, now) is None
}

/// The next display synchronisation instant after `now`: the first of the
/// next 96 wall-clock half-hours that has an occurrence after `now`; of a
/// repeated reading, the earlier such occurrence.
pub fn next_display_wake_with<F: Fn(LocalDateTime) -> LocalResolution>(
    now: &ZonedDateTime,
    resolve: F,
) -> (r: Option<ZonedDateTime>)
    requires
        search_start_ok(*now),
        forall|x: LocalDateTime| x.wf() ==> call_requires(resolve, (x,)),
    ensures
        match r {
            Some(z) => exists|k: int, res: LocalResolution|
                #![trigger candidate_secs(*now, k), display_choice(res, *now)]
                0 <= k < SEARCH_HALF_HOURS && candidate_secs(*now, k) <= MAX_SECONDS
                    && call_ensures(resolve, (candidate(*now, k),), res) && display_choice(res, *now)
                    == Some(z) && forall|j: int|
                    0 <= j < k ==> #[trigger] display_rejects(resolve, *now, j),
            None => forall|j: int|
                0 <= j < SEARCH_HALF_HOURS && candidate_secs(*now, j) <= MAX_SECONDS
                    ==> #[trigger] display_rejects(resolve, *now, j),
        },
{
    let mut next = match next_half_hour_naive(now.local()) {
        Some(first) => first,
        None => return None,
    };
    proof {
        lemma_half_hour_floor(now.spec_local().secs as int);
    }
    let mut i: usize = 0;
    while i < SEARCH_HALF_HOURS
        invariant
            search_start_ok(*now),
            forall|x: LocalDateTime| x.wf() ==> call_requires(resolve, (x,)),
            i <= SEARCH_HALF_HOURS,
            next == candidate(*now, i as int),
            next.wf(),
            candidate_secs(*now, i as int) <= MAX_SECONDS,
            forall|j: int| 0 <= j < i ==> #[trigger] display_rejects(resolve, *now, j),
        decreases SEARCH_HALF_HOURS - i,
    {
        let res = resolve(next);
        let choice = future_display_candidate(now, res);
        assert(call_ensures(resolve, (candidate(*now, i as int),), res));
        if let Some(z) = choice {
            assert(candidate_secs(*now, i as int) <= MAX_SECONDS);
            assert(display_choice(res, *now) == Some(z));
            return Some(z);
        }
        assert(display_rejects(resolve, *now, i as int));
        if next.secs > MAX_SECONDS - SECONDS_PER_HALF_HOUR {
            assert forall|j: int|
                0 <= j < SEARCH_HALF_HOURS && candidate_secs(*now, j) <= MAX_SECONDS implies
                #[trigger] display_rejects(resolve, *now, j) by {
                if j > i {
                    assert(candidate_secs(*now, j) >= candidate_secs(*now, i as int) + 1800);
                }
            }
            return None;
        }
        next = LocalDateTime { secs: next.secs + SECONDS_PER_HALF_HOUR, nanos: 0 };
        i += 1;
    }
    None
}

/// The first half-hour after `now` read at a fixed offset: the unique
/// date-time of the first candidate.
pub open spec fn first_candidate_at_offset(now: ZonedDateTime, offset: i32) -> ZonedDateTime {
    ZonedDateTime {
        utc: Instant { secs: (candidate_secs(now, 0) - offset) as i64, nanos: 0 },
        offset_secs: offset,
    }
}

/// A date-time that the searches may return: after `now`, on a wall-clock
/// half-hour mark, and at most two days of wall-clock time later.
pub open spec fn valid_next_boundary(z: ZonedDateTime, now: ZonedDateTime) -> bool {
    &&& z.wf()
    &&& precedes(now.utc, z.utc)
    &&& is_half_hour_mark(z.spec_local())
    &&& now.spec_local().secs < z.spec_local().secs <= now.spec_local().secs + 1800 * 96
}

/// The `k`-th candidate is a half-hour mark strictly after the reading of
/// `now` and at most `k + 1` half-hours later.
proof fn lemma_candidate_is_later_mark(now: ZonedDateTime, k: int)
    requires
        search_start_ok(now),
        0 <= k,
        candidate_secs(now, k) <= MAX_SECONDS,
    ensures
        candidate(now, k).wf(),
        is_half_hour_mark(candidate(now, k)),
        now.spec_local().secs < candidate_secs(now, k) <= now.spec_local().secs + 1800 * (k + 1),
{
    lemma_half_hour_floor(now.spec_local().secs as int);
    let f = half_hour_floor(now.spec_local().secs as int);
    assert((f + 1800 * (k + 1)) % 1800 == 0) by {
        lemma_fundamental_div_mod(f, 1800);
        lemma_fundamental_div_mod_converse(f + 1800 * (k + 1), 1800, f / 1800 + k + 1, 0);
    }
    lemma_multiple_of_half_hour_is_mark(candidate_secs(now, k));
}

/// At a fixed offset equal to that of `now`, the first candidate resolves
/// to a unique date-time after `now`.
proof fn lemma_fixed_offset_accepts_first_candidate(now: ZonedDateTime)
    requires
        search_start_ok(now),
        candidate_secs(now, 0) <= MAX_SECONDS,
        candidate_secs(now, 0) - now.offset_secs <= MAX_SECONDS,
    ensures
        Zone::fixed_resolution(now.offset_secs, candidate(now, 0)) == LocalResolution::Single(
            first_candidate_at_offset(now, now.offset_secs),
        ),
        scheduling_accepts(LocalResolution::Single(first_candidate_at_offset(now, now.offset_secs)), now),
        display_choice(LocalResolution::Single(first_candidate_at_offset(now, now.offset_secs)), now)
            == Some(first_candidate_at_offset(now, now.offset_secs)),
{
    lemma_candidate_is_later_mark(now, 0);
}

/// The zone's resolution of the `k`-th candidate after `now` may be one that
/// scheduling does not take.
pub open spec fn zone_scheduling_rejects(zone: Zone, now: ZonedDateTime, k: int) -> bool {
    exists|res: LocalResolution|
        call_ensures(Zone::resolve, (&zone, candidate(now, k)), res) && !scheduling_accepts(res, now)
}

/// The zone's resolution of the `k`-th candidate after `now` may give
/// display synchronisation nothing.
pub open spec fn zone_display_rejects(zone: Zone, now: ZonedDateTime, k: int) -> bool {
    exists|res: LocalResolution|
        call_ensures(Zone::resolve, (&zone, candidate(now, k)), res) && display_choice(res, now)
            is None
}

/// Candidates before one that is in range are in range too.
proof fn lemma_earlier_candidates_in_range(now: ZonedDateTime, j: int, k: int)
    requires
        0 <= j <= k,
        candidate_secs(now, k) <= MAX_SECONDS,
    ensures
        candidate_secs(now, j) <= MAX_SECONDS,
{
    assert(candidate_secs(now, j) <= candidate_secs(now, k)) by (nonlinear_arith)
        requires
            j <= k,
    ;
}

/// The next instant at which bells may be scheduled in `zone` after `now`:
/// the first of the next 96 wall-clock half-hours that the zone resolves to
/// a unique date-time after `now`; half-hours that the zone skips or
/// repeats are passed over. At the fixed offset of `now` that is simply the
/// next half-hour mark.
pub fn next_half_hour(now: ZonedDateTime, zone: Zone) -> (r: Option<ZonedDateTime>)
    requires
        search_start_ok(now),
        zone.wf(),
    ensures
        match r {
            Some(z) => exists|k: int|
                #![trigger candidate_secs(now, k)]
                0 <= k < SEARCH_HALF_HOURS && candidate_secs(now, k) <= MAX_SECONDS
                    && call_ensures(
                    Zone::resolve,
                    (&zone, candidate(now, k)),
                    LocalResolution::Single(z),
                ) && precedes(now.utc, z.utc) && forall|j: int|
                    0 <= j < k ==> #[trigger] zone_scheduling_rejects(zone, now, j),
            None => forall|j: int|
                0 <= j < SEARCH_HALF_HOURS && candidate_secs(now, j) <= MAX_SECONDS
                    ==> #[trigger] zone_scheduling_rejects(zone, now, j),
        },
        r matches Some(z) ==> valid_next_boundary(z, now),
        zone == Zone::Fixed(now.offset_secs) && candidate_secs(now, 0) - now.offset_secs
            <= MAX_SECONDS ==> r == Some(first_candidate_at_offset(now, now.offset_secs)),
{
    let resolve = |reading: LocalDateTime| -> (res: LocalResolution)
        requires
            reading.wf(),
            zone.wf(),
        ensures
            resolution_reads_as(res, reading),
            zone matches Zone::Fixed(offset) ==> res == Zone::fixed_resolution(offset, reading),
            call_ensures(Zone::resolve, (&zone, reading), res),
        { zone.resolve(reading) };
    let r = next_half_hour_with(&now, resolve);
    proof {
        lemma_half_hour_floor(now.spec_local().secs as int);
        assert forall|j: int|
            0 <= j < SEARCH_HALF_HOURS && candidate_secs(now, j) <= MAX_SECONDS
                && #[trigger] scheduling_rejects(resolve, now, j) implies zone_scheduling_rejects(
            zone,
            now,
            j,
        ) by {
            lemma_candidate_is_later_mark(now, j);
            let res = choose|res: LocalResolution|
                call_ensures(resolve, (candidate(now, j),), res) && !scheduling_accepts(res, now);
            assert(call_ensures(Zone::resolve, (&zone, candidate(now, j)), res));
        }
        if r is None {
            assert forall|j: int|
                0 <= j < SEARCH_HALF_HOURS && candidate_secs(now, j) <= MAX_SECONDS implies
                #[trigger] zone_scheduling_rejects(zone, now, j) by {
                assert(scheduling_rejects(resolve, now, j));
            }
        }
        if let Some(z) = r {
            let k = choose|k: int|
                #![trigger candidate_secs(now, k)]
                0 <= k < SEARCH_HALF_HOURS && candidate_secs(now, k) <= MAX_SECONDS
                    && call_ensures(resolve, (candidate(now, k),), LocalResolution::Single(z))
                    && precedes(now.utc, z.utc) && forall|j: int|
                    0 <= j < k ==> #[trigger] scheduling_rejects(resolve, now, j);
            lemma_candidate_is_later_mark(now, k);
            assert(call_ensures(Zone::resolve, (&zone, candidate(now, k)), LocalResolution::Single(z)));
            assert forall|j: int| 0 <= j < k implies #[trigger] zone_scheduling_rejects(
                zone,
                now,
                j,
            ) by {
                lemma_earlier_candidates_in_range(now, j, k);
                assert(scheduling_rejects(resolve, now, j));
            }
        }
        if zone == Zone::Fixed(now.offset_secs) && candidate_secs(now, 0) - now.offset_secs
            <= MAX_SECONDS {
            lemma_fixed_offset_accepts_first_candidate(now);
            lemma_candidate_is_later_mark(now, 0);
            if r is None {
                assert(scheduling_rejects(resolve, now, 0));
            } else {
                let z = r->0;
                let k = choose|k: int|
                    #![trigger candidate_secs(now, k)]
                    0 <= k < SEARCH_HALF_HOURS && candidate_secs(now, k) <= MAX_SECONDS
                        && call_ensures(resolve, (candidate(now, k),), LocalResolution::Single(z))
                        && precedes(now.utc, z.utc) && forall|j: int|
                        0 <= j < k ==> #[trigger] scheduling_rejects(resolve, now, j);
                if k > 0 {
                    assert(scheduling_rejects(resolve, now, 0));
                }
            }
        }
    }
    r
}

/// The next display synchronisation instant in `zone` after `now`: the
/// first of the next 96 wall-clock half-hours that has an occurrence after
/// `now`; of a repeated reading, the earlier such occurrence. At the fixed
/// offset of `now` that is simply the next half-hour mark.
pub fn next_display_wake(now: ZonedDateTime, zone: Zone) -> (r: Option<ZonedDateTime>)
    requires
        search_start_ok(now),
        zone.wf(),
    ensures
        match r {
            Some(z) => exists|k: int, res: LocalResolution|
                #![trigger candidate_secs(now, k), display_choice(res, now)]
                0 <= k < SEARCH_HALF_HOURS && candidate_secs(now, k) <= MAX_SECONDS
                    && call_ensures(Zone::resolve, (&zone, candidate(now, k)), res)
                    && display_choice(res, now) == Some(z) && forall|j: int|
                    0 <= j < k ==> #[trigger] zone_display_rejects(zone, now, j),
            None => forall|j: int|
                0 <= j < SEARCH_HALF_HOURS && candidate_secs(now, j) <= MAX_SECONDS
                    ==> #[trigger] zone_display_rejects(zone, now, j),
        },
        r matches Some(z) ==> valid_next_boundary(z, now),
        zone == Zone::Fixed(now.offset_secs) && candidate_secs(now, 0) - now.offset_secs
            <= MAX_SECONDS ==> r == Some(first_candidate_at_offset(now, now.offset_secs)),
{
    let resolve = |reading: LocalDateTime| -> (res: LocalResolution)
        requires
            reading.wf(),
            zone.wf(),
        ensures
            resolution_reads_as(res, reading),
            zone matches Zone::Fixed(offset) ==> res == Zone::fixed_resolution(offset, reading),
            call_ensures(Zone::resolve, (&zone, reading), res),
        { zone.resolve(reading) };
    let r = next_display_wake_with(&now, resolve);
    proof {
        lemma_half_hour_floor(now.spec_local().secs as int);
        assert forall|j: int|
            0 <= j < SEARCH_HALF_HOURS && candidate_secs(now, j) <= MAX_SECONDS
                && #[trigger] display_rejects(resolve, now, j) implies zone_display_rejects(
            zone,
            now,
            j,
        ) by {
            lemma_candidate_is_later_mark(now, j);
            let res = choose|res: LocalResolution|
                call_ensures(resolve, (candidate(now, j),), res) && display_choice(res, now) is None;
            assert(call_ensures(Zone::resolve, (&zone, candidate(now, j)), res));
        }
        if r is None {
            assert forall|j: int|
                0 <= j < SEARCH_HALF_HOURS && candidate_secs(now, j) <= MAX_SECONDS implies
                #[trigger] zone_display_rejects(zone, now, j) by {
                assert(display_rejects(resolve, now, j));
            }
        }
        if let Some(z) = r {
            let (k, res) = choose|k: int, res: LocalResolution|
                #![trigger candidate_secs(now, k), display_choice(res, now)]
                0 <= k < SEARCH_HALF_HOURS && candidate_secs(now, k) <= MAX_SECONDS
                    && call_ensures(resolve, (candidate(now, k),), res) && display_choice(res, now)
                    == Some(z) && forall|j: int|
                    0 <= j < k ==> #[trigger] display_rejects(resolve, now, j);
            lemma_candidate_is_later_mark(now, k);
            assert(call_ensures(Zone::resolve, (&zone, candidate(now, k)), res));
            assert forall|j: int| 0 <= j < k implies #[trigger] zone_display_rejects(
                zone,
                now,
                j,
            ) by {
                lemma_earlier_candidates_in_range(now, j, k);
                assert(display_rejects(resolve, now, j));
            }
        }
        if zone == Zone::Fixed(now.offset_secs) && candidate_secs(now, 0) - now.offset_secs
            <= MAX_SECONDS {
            lemma_fixed_offset_accepts_first_candidate(now);
            lemma_candidate_is_later_mark(now, 0);
            if r is None {
                assert(display_rejects(resolve, now, 0));
            } else {
                let z = r->0;
                let (k, res) = choose|k: int, res: LocalResolution|
                    #![trigger candidate_secs(now, k), display_choice(res, now)]
                    0 <= k < SEARCH_HALF_HOURS && candidate_secs(now, k) <= MAX_SECONDS
                        && call_ensures(resolve, (candidate(now, k),), res) && display_choice(
                        res,
                        now,
                    ) == Some(z) && forall|j: int|
                        0 <= j < k ==> #[trigger] display_rejects(resolve, now, j);
                if k > 0 {
                    assert(display_rejects(resolve, now, 0));
                }
            }
        }
    }
    r
}

/// A span of time that is never negative: whole seconds and nanoseconds.
#[derive(Clone, Copy, Debug, PartialEq, Eq, Structural)]
pub struct Delay {
    pub secs: u64,
    pub nanos: u32,
}

impl Delay {
    pub open spec fn length(self) -> int {
        self.secs * 1_000_000_000 + self.nanos
    }
}

/// How long from `now` until `boundary`; nothing once it has passed.
pub fn duration_until(now: Instant, boundary: Instant) -> (r: Delay)
    requires
        now.wf(),
        boundary.wf(),
    ensures
        r.nanos < 1_000_000_000,
        r.length() == if now.position() < boundary.position() {
            boundary.position() - now.position()
        } else {
            0
        },
{
    if !now.is_before(&boundary) {
        return Delay { secs: 0, nanos: 0 };
    }
    let secs = boundary.secs - now.secs;
    if boundary.nanos >= now.nanos {
        Delay { secs: secs as u64, nanos: boundary.nanos - now.nanos }
    } else {
        Delay { secs: (secs - 1) as u64, nanos: boundary.nanos + 1_000_000_000 - now.nanos }
    }
}

/// Whether the sound of a boundary may start.
#[derive(Clone, Copy, Debug, PartialEq, Eq, Structural)]
pub enum AudioStart {
    Authorised,
    Rejected(BoundaryStatus),
    StateChanged,
}

/// The audio-start decision: the boundary must be fresh, and the clock
/// state at the boundary must still be the one the bells were chosen for.
pub open spec fn audio_start_rule(
    status: BoundaryStatus,
    boundary_state: ClockState,
    state: ClockState,
) -> AudioStart {
    if status != BoundaryStatus::Fresh {
        AudioStart::Rejected(status)
    } else if boundary_state != state {
        AudioStart::StateChanged
    } else {
        AudioStart::Authorised
    }
}

/// Decides whether sound may start, from the boundary's status and the
/// clock state at the boundary.
pub fn audio_start_decision(
    status: BoundaryStatus,
    boundary_state: ClockState,
    state: ClockState,
) -> (r: AudioStart)
    ensures
        r == audio_start_rule(status, boundary_state, state),
{
    if status != BoundaryStatus::Fresh {
        AudioStart::Rejected(status)
    } else if boundary_state != state {
        AudioStart::StateChanged
    } else {
        AudioStart::Authorised
    }
}

/// The clock state that the wall clock of `z` shows.
pub open spec fn clock_state_of(z: ZonedDateTime) -> ClockState {
    ClockState::at(z.spec_local().spec_hour(), z.spec_local().spec_minute())
}

/// Checks on this machine whether the bells `state` chosen for `boundary`
/// may start sounding at `now`: the boundary's status on this machine must
/// be fresh, and the clock state that the machine's zone shows at the
/// boundary must be `state`.
pub fn audio_start_check(boundary: Instant, state: ClockState, now: Instant) -> (r: AudioStart)
    requires
        far_from_calendar_edges(boundary),
        now.wf(),
    ensures
        r matches AudioStart::Rejected(status) ==> status != BoundaryStatus::Fresh && local_status(
            boundary,
            now,
            status,
        ) && (status == BoundaryStatus::InvalidLocalBoundary || status == timing_status(
            boundary,
            now,
        )),
        !(r is Rejected) ==> local_status(boundary, now, BoundaryStatus::Fresh) && timing_status(
            boundary,
            now,
        ) == BoundaryStatus::Fresh && boundary.nanos == 0 && exists|z: ZonedDateTime|
            call_ensures(Zone::at, (&Zone::Local, boundary), z) && (r == AudioStart::Authorised
                <==> clock_state_of(z) == state),
{
    let status = boundary_status(boundary, now);
    if status != BoundaryStatus::Fresh {
        return AudioStart::Rejected(status);
    }
    let at_boundary = Zone::Local.at(boundary);
    let boundary_state = watch_and_bells_for_time(at_boundary);
    assert(boundary_state == clock_state_of(at_boundary));
    let r = audio_start_decision(status, boundary_state, state);
    assert(call_ensures(Zone::at, (&Zone::Local, boundary), at_boundary));
    r
}

/// Whether the bells `state` chosen for `boundary` may start sounding at
/// `now` on this machine: `audio_start_check` authorises them.
pub fn audio_start_authorised(boundary: Instant, state: ClockState, now: Instant) -> (r: bool)
    requires
        far_from_calendar_edges(boundary),
        now.wf(),
    ensures
        r ==> local_status(boundary, now, BoundaryStatus::Fresh) && timing_status(boundary, now)
            == BoundaryStatus::Fresh && boundary.nanos == 0 && exists|z: ZonedDateTime|
            call_ensures(Zone::at, (&Zone::Local, boundary), z) && clock_state_of(z) == state,
        !r ==> (exists|status: BoundaryStatus|
            status != BoundaryStatus::Fresh && local_status(boundary, now, status)) || exists|
            z: ZonedDateTime,
        | call_ensures(Zone::at, (&Zone::Local, boundary), z) && clock_state_of(z) != state,
{
    let r = audio_start_check(boundary, state, now);
    if let AudioStart::Rejected(status) = r {
        assert(status != BoundaryStatus::Fresh && local_status(boundary, now, status));
    }
    r == AudioStart::Authorised
}

/// What the scheduler does when it wakes at a display synchronisation
/// instant.
#[derive(Clone, Copy, Debug, PartialEq, Eq, Structural)]
pub enum SchedulerWake {
    /// Send the boundary to the event loop.
    Deliver,
    /// A display-only wake before the next unique boundary; nothing to report.
    DisplayOnly,
    /// The audible boundary is not fresh.
    Rejected(BoundaryStatus),
    /// The audible boundary was already scheduled, or is older than the last.
    Duplicate,
}

/// The scheduler's rule at a wake.
pub open spec fn scheduler_wake_rule(
    next_sync: Instant,
    next_audible: Instant,
    status: BoundaryStatus,
    last_scheduled: Option<Instant>,
) -> SchedulerWake {
    if status != BoundaryStatus::Fresh {
        if next_sync != next_audible && status == BoundaryStatus::BeforeBoundary {
            SchedulerWake::DisplayOnly
        } else {
            SchedulerWake::Rejected(status)
        }
    } else if claimable(last_scheduled, next_audible) {
        SchedulerWake::Deliver
    } else {
        SchedulerWake::Duplicate
    }
}

/// Decides what the scheduler does at a wake, given the status of the next
/// audible boundary; a delivered boundary becomes the last scheduled one.
pub fn scheduler_wake(
    next_sync: Instant,
    next_audible: Instant,
    status: BoundaryStatus,
    last_scheduled: &mut Option<Instant>,
) -> (r: SchedulerWake)
    ensures
        r == scheduler_wake_rule(next_sync, next_audible, status, *old(last_scheduled)),
        *final(last_scheduled) == if r == SchedulerWake::Deliver {
            Some(next_audible)
        } else {
            *old(last_scheduled)
        },
{
    if status != BoundaryStatus::Fresh {
        if next_sync != next_audible && status == BoundaryStatus::BeforeBoundary {
            return SchedulerWake::DisplayOnly;
        }
        return SchedulerWake::Rejected(status);
    }
    if !claim_boundary(last_scheduled, next_audible) {
        return SchedulerWake::Duplicate;
    }
    SchedulerWake::Deliver
}

/// What the event loop does with a boundary that the scheduler delivered.
#[derive(Clone, Copy, Debug, PartialEq, Eq, Structural)]
pub enum BoundaryEvent {
    /// Strike the bells.
    Ring,
    /// The boundary is consumed, but the bells are muted.
    MutedSkip,
    /// The boundary is not fresh.
    Rejected(BoundaryStatus),
    /// The clock state changed since the boundary was chosen.
    StateChanged,
    /// The boundary was already consumed, or is older than the last.
    Duplicate,
}

/// The event loop's rule for a delivered boundary.
pub open spec fn boundary_event_rule(
    status: BoundaryStatus,
    state: ClockState,
    current_state: ClockState,
    boundary_state: ClockState,
    boundary: Instant,
    muted: bool,
    last_consumed: Option<Instant>,
) -> BoundaryEvent {
    if status != BoundaryStatus::Fresh {
        BoundaryEvent::Rejected(status)
    } else if state != current_state || state != boundary_state {
        BoundaryEvent::StateChanged
    } else if !claimable(last_consumed, boundary) {
        BoundaryEvent::Duplicate
    } else if muted {
        BoundaryEvent::MutedSkip
    } else {
        BoundaryEvent::Ring
    }
}

/// Whether an outcome consumes its boundary.
pub open spec fn consumes(outcome: BoundaryEvent) -> bool {
    outcome == BoundaryEvent::Ring || outcome == BoundaryEvent::MutedSkip
}

/// Decides what the event loop does with the boundary `boundary`, for which
/// the scheduler chose `state`, given its status, the current clock state
/// and the clock state at the boundary; a consumed boundary becomes the
/// last consumed one.
pub fn boundary_event(
    status: BoundaryStatus,
    state: ClockState,
    current_state: ClockState,
    boundary_state: ClockState,
    boundary: Instant,
    muted: bool,
    last_consumed: &mut Option<Instant>,
) -> (r: BoundaryEvent)
    ensures
        r == boundary_event_rule(
            status,
            state,
            current_state,
            boundary_state,
            boundary,
            muted,
            *old(last_consumed),
        ),
        *final(last_consumed) == if consumes(r) {
            Some(boundary)
        } else {
            *old(last_consumed)
        },
{
    if status != BoundaryStatus::Fresh {
        return BoundaryEvent::Rejected(status);
    }
    if state != current_state || state != boundary_state {
        return BoundaryEvent::StateChanged;
    }
    if !claim_boundary(last_consumed, boundary) {
        return BoundaryEvent::Duplicate;
    }
    if muted {
        BoundaryEvent::MutedSkip
    } else {
        BoundaryEvent::Ring
    }
}

/// A boundary rings at most once: once consumed, the same boundary, or any
/// earlier one, is a duplicate whatever else holds.
pub proof fn lemma_boundary_rings_at_most_once(
    status: BoundaryStatus,
    state: ClockState,
    current_state: ClockState,
    boundary_state: ClockState,
    boundary: Instant,
    muted: bool,
    last_consumed: Option<Instant>,
    later: Instant,
    later_status: BoundaryStatus,
    later_state: ClockState,
    later_current: ClockState,
    later_boundary_state: ClockState,
    later_muted: bool,
)
    requires
        consumes(
            boundary_event_rule(
                status,
                state,
                current_state,
                boundary_state,
                boundary,
                muted,
                last_consumed,
            ),
        ),
        !precedes(boundary, later),
    ensures
        !consumes(
            boundary_event_rule(
                later_status,
                later_state,
                later_current,
                later_boundary_state,
                later,
                later_muted,
                Some(boundary),
            ),
        ),
{
}

/// Bells ring only for a fresh boundary whose clock state is unchanged, that
/// lies after every boundary consumed before it, and only when not muted.
pub proof fn lemma_ring_requires_fresh_unchanged_new_boundary(
    status: BoundaryStatus,
    state: ClockState,
    current_state: ClockState,
    boundary_state: ClockState,
    boundary: Instant,
    muted: bool,
    last_consumed: Option<Instant>,
)
    requires
        boundary_event_rule(
            status,
            state,
            current_state,
            boundary_state,
            boundary,
            muted,
            last_consumed,
        ) == BoundaryEvent::Ring,
    ensures
        status == BoundaryStatus::Fresh,
        state == current_state && state == boundary_state,
        !muted,
        last_consumed matches Some(l) ==> precedes(l, boundary),
{
}

/// The scheduler delivers each boundary at most once: after a delivery,
/// the same boundary or an earlier one is never delivered again.
pub proof fn lemma_scheduler_delivers_at_most_once(
    next_sync: Instant,
    next_audible: Instant,
    status: BoundaryStatus,
    last_scheduled: Option<Instant>,
    later_sync: Instant,
    later_audible: Instant,
    later_status: BoundaryStatus,
)
    requires
        scheduler_wake_rule(next_sync, next_audible, status, last_scheduled)
            == SchedulerWake::Deliver,
        !precedes(next_audible, later_audible),
    ensures
        scheduler_wake_rule(later_sync, later_audible, later_status, Some(next_audible))
            != SchedulerWake::Deliver,
{
}

/// The scheduler delivers a boundary exactly when its status is fresh and
/// it lies after the last boundary delivered; a boundary that is not fresh
/// is reported rejected with its status, except at a display-only wake
/// before a boundary that is not the wake instant.
pub proof fn lemma_scheduler_delivers_only_fresh_new_boundaries(
    next_sync: Instant,
    next_audible: Instant,
    status: BoundaryStatus,
    last_scheduled: Option<Instant>,
)
    ensures
        scheduler_wake_rule(next_sync, next_audible, status, last_scheduled)
            == SchedulerWake::Deliver <==> status == BoundaryStatus::Fresh && (last_scheduled is None
            || precedes(last_scheduled->0, next_audible)),
        status != BoundaryStatus::Fresh && !(next_sync != next_audible && status
            == BoundaryStatus::BeforeBoundary) ==> scheduler_wake_rule(
            next_sync,
            next_audible,
            status,
            last_scheduled,
        ) == SchedulerWake::Rejected(status),
        status == BoundaryStatus::Stale || status == BoundaryStatus::InvalidLocalBoundary
            ==> scheduler_wake_rule(next_sync, next_audible, status, last_scheduled)
            == SchedulerWake::Rejected(status),
{
}

/// The event loop consumes a boundary only when it is fresh, its clock
/// state is unchanged and it lies after the last boundary consumed; it then
/// rings exactly when not muted.
pub proof fn lemma_event_loop_consumes_only_fresh_unchanged_new_boundaries(
    status: BoundaryStatus,
    state: ClockState,
    current_state: ClockState,
    boundary_state: ClockState,
    boundary: Instant,
    muted: bool,
    last_consumed: Option<Instant>,
)
    ensures
        ({
            let outcome = boundary_event_rule(
                status,
                state,
                current_state,
                boundary_state,
                boundary,
                muted,
                last_consumed,
            );
            &&& consumes(outcome) <==> status == BoundaryStatus::Fresh && state == current_state
                && state == boundary_state && (last_consumed is None || precedes(
                last_consumed->0,
                boundary,
            ))
            &&& consumes(outcome) ==> (outcome == BoundaryEvent::Ring <==> !muted)
            &&& status != BoundaryStatus::Fresh ==> outcome == BoundaryEvent::Rejected(status)
        }),
{
}

/// The position of a wall-clock reading, in nanoseconds.
pub open spec fn total_nanos_of(local: LocalDateTime) -> int {
    local.secs * 1_000_000_000 + local.nanos
}

} // verus!
