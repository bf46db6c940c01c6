//! A model of the time line: UTC instants, wall-clock date-times and zoned
//! date-times as whole seconds plus nanoseconds, the range of dates that the
//! calendar library can represent, and resolution of wall-clock times in a
//! time zone.

use chrono::TimeZone as _;
use vstd::prelude::*;

verus! {

pub const NANOS_PER_SECOND: u32 = 1_000_000_000;

pub const SECONDS_PER_MINUTE: i64 = 60;

pub const SECONDS_PER_HALF_HOUR: i64 = 1800;

pub const SECONDS_PER_HOUR: i64 = 3600;

pub const SECONDS_PER_DAY: i64 = 86400;

/// The first second of -262143-01-01, the earliest date the calendar supports.
pub const MIN_SECONDS: i64 = -8_334_601_315_200;

/// The last second of +262142-12-31, the latest date the calendar supports.
pub const MAX_SECONDS: i64 = 8_210_266_876_799;

/// Largest magnitude (exclusive) of a UTC offset in seconds.
pub const MAX_OFFSET_SECONDS: i32 = 86400;

/// Whether a seconds/nanoseconds pair lies in the supported calendar range.
pub open spec fn time_in_range(secs: int, nanos: int) -> bool {
    &&& MIN_SECONDS <= secs <= MAX_SECONDS
    &&& 0 <= nanos < NANOS_PER_SECOND
}

/// The position on the time line, in nanoseconds.
pub open spec fn total_nanos(secs: int, nanos: int) -> int {
    secs * 1_000_000_000 + nanos
}

pub open spec fn hour_of(secs: int) -> int {
    (secs / 3600) % 24
}

pub open spec fn minute_of(secs: int) -> int {
    (secs / 60) % 60
}

pub open spec fn second_of(secs: int) -> int {
    secs % 60
}

/// Whether `m` is one of the calendar divisors used on second counts.
pub open spec fn calendar_divisor(m: int) -> bool {
    m == 24 || m == 60 || m == 1800 || m == 3600 || m == 86400
}

/// Euclidean remainder of `a` by a calendar divisor `m`.
#[verifier::rlimit(30)]
pub fn floor_mod(a: i64, m: i64) -> (r: i64)
    requires
        calendar_divisor(m as int),
    ensures
        r == a % m,
        0 <= r < m,
{
    let t = a % m;
    if t < 0 {
        t + m
    } else {
        t
    }
}

/// Floor division of `a` by a calendar divisor `m`.
pub fn floor_div(a: i64, m: i64) -> (r: i64)
    requires
        calendar_divisor(m as int),
    ensures
        r == a / m,
{
    let t = a % m;
    let q = a / m;
    if t < 0 {
        q - 1
    } else {
        q
    }
}

/// A point on the UTC time line: whole seconds since 1970-01-01T00:00:00Z
/// and the nanoseconds past that second.
#[derive(Clone, Copy, Debug, PartialEq, Eq, Structural)]
pub struct Instant {
    pub secs: i64,
    pub nanos: u32,
}

impl Instant {
    pub open spec fn wf(self) -> bool {
        time_in_range(self.secs as int, self.nanos as int)
    }

    pub open spec fn position(self) -> int {
        total_nanos(self.secs as int, self.nanos as int)
    }

    /// Whether `self` lies strictly before `other` on the time line.
    pub fn is_before(&self, other: &Instant) -> (r: bool)
        ensures
            r == precedes(*self, *other),
    {
        self.secs < other.secs || (self.secs == other.secs && self.nanos < other.nanos)
    }
}

/// The order of the time line: by second, then by nanosecond.
pub open spec fn precedes(a: Instant, b: Instant) -> bool {
    a.secs < b.secs || (a.secs == b.secs && a.nanos < b.nanos)
}

/// On well-formed instants the order of the time line is the order of
/// their positions in nanoseconds.
pub proof fn lemma_precedes_is_position_order(a: Instant, b: Instant)
    requires
        a.wf(),
        b.wf(),
    ensures
        precedes(a, b) <==> a.position() < b.position(),
        a == b <==> a.position() == b.position(),
{
}

/// A wall-clock date and time with no zone: whole seconds since
/// 1970-01-01T00:00:00 on the same wall clock, and nanoseconds.
#[derive(Clone, Copy, Debug, PartialEq, Eq, Structural)]
pub struct LocalDateTime {
    pub secs: i64,
    pub nanos: u32,
}

impl LocalDateTime {
    pub open spec fn wf(self) -> bool {
        time_in_range(self.secs as int, self.nanos as int)
    }

    pub open spec fn spec_hour(self) -> int {
        hour_of(self.secs as int)
    }

    pub open spec fn spec_minute(self) -> int {
        minute_of(self.secs as int)
    }

    pub open spec fn spec_second(self) -> int {
        second_of(self.secs as int)
    }

    /// Hour of the day, 0 to 23.
    pub fn hour(&self) -> (r: u32)
        ensures
            r == self.spec_hour(),
            r < 24,
    {
        let h = floor_div(self.secs, SECONDS_PER_HOUR);
        floor_mod(h, 24) as u32
    }

    /// Minute of the hour, 0 to 59.
    pub fn minute(&self) -> (r: u32)
        ensures
            r == self.spec_minute(),
            r < 60,
    {
        let m = floor_div(self.secs, SECONDS_PER_MINUTE);
        floor_mod(m, 60) as u32
    }

    /// Second of the minute, 0 to 59.
    pub fn second(&self) -> (r: u32)
        ensures
            r == self.spec_second(),
            r < 60,
    {
        floor_mod(self.secs, SECONDS_PER_MINUTE) as u32
    }
}

/// A zoned date-time: an instant and the UTC offset, in seconds, of the
/// wall clock that reads it.
#[derive(Clone, Copy, Debug, PartialEq, Eq, Structural)]
pub struct ZonedDateTime {
    pub utc: Instant,
    pub offset_secs: i32,
}

pub open spec fn offset_in_range(offset: int) -> bool {
    -MAX_OFFSET_SECONDS < offset < MAX_OFFSET_SECONDS
}

impl ZonedDateTime {
    pub open spec fn wf(self) -> bool {
        self.utc.wf() && offset_in_range(self.offset_secs as int)
    }

    /// The wall-clock reading of this date-time.
    pub open spec fn spec_local(self) -> LocalDateTime {
        LocalDateTime { secs: (self.utc.secs + self.offset_secs) as i64, nanos: self.utc.nanos }
    }

    /// Whether the wall-clock reading lies in the supported calendar range.
    pub open spec fn local_in_range(self) -> bool {
        self.wf() && self.spec_local().wf()
    }

    /// The wall-clock reading of this date-time.
    pub fn local(&self) -> (r: LocalDateTime)
        requires
            self.wf(),
        ensures
            r == self.spec_local(),
    {
        LocalDateTime { secs: self.utc.secs + self.offset_secs as i64, nanos: self.utc.nanos }
    }
}

/// The outcome of reading a wall-clock time in a time zone: one date-time,
/// two (the clock was turned back; in the order the zone gives them, which
/// need not be the order of the time line), or none (the clock skipped the
/// time).
#[derive(Clone, Copy, Debug, PartialEq, Eq, Structural)]
pub enum LocalResolution {
    Single(ZonedDateTime),
    Ambiguous(ZonedDateTime, ZonedDateTime),
    Nonexistent,
}

/// Whether `z` is a well-formed date-time whose wall clock reads `local`.
pub open spec fn reads_as(z: ZonedDateTime, local: LocalDateTime) -> bool {
    z.wf() && z.spec_local() == local
}

/// Every date-time in the resolution reads `local` on its wall clock.
pub open spec fn resolution_reads_as(r: LocalResolution, local: LocalDateTime) -> bool {
    match r {
        LocalResolution::Single(z) => reads_as(z, local),
        LocalResolution::Ambiguous(a, b) => reads_as(a, local) && reads_as(b, local),
        LocalResolution::Nonexistent => true,
    }
}

impl LocalResolution {
    pub open spec fn spec_single(self) -> Option<ZonedDateTime> {
        match self {
            LocalResolution::Single(z) => Some(z),
            _ => None,
        }
    }

    /// The date-time when the reading is unique.
    pub fn single(&self) -> (r: Option<ZonedDateTime>)
        ensures
            r == self.spec_single(),
    {
        match self {
            LocalResolution::Single(z) => Some(*z),
            _ => None,
        }
    }
}

/// A time zone: a fixed UTC offset in seconds, or the zone configured on
/// this machine.
#[derive(Clone, Copy, Debug, PartialEq, Eq, Structural)]
pub enum Zone {
    Fixed(i32),
    Local,
}

impl Zone {
    pub open spec fn wf(self) -> bool {
        match self {
            Zone::Fixed(offset) => offset_in_range(offset as int),
            Zone::Local => true,
        }
    }

    /// Resolution of a wall-clock reading at a fixed offset.
    pub open spec fn fixed_resolution(offset: i32, local: LocalDateTime) -> LocalResolution {
        let utc_secs = local.secs - offset;
        if MIN_SECONDS <= utc_secs <= MAX_SECONDS {
            LocalResolution::Single(
                ZonedDateTime {
                    utc: Instant { secs: utc_secs as i64, nanos: local.nanos },
                    offset_secs: offset,
                },
            )
        } else {
            LocalResolution::Nonexistent
        }
    }

    /// The date-time(s) at which this zone's wall clock reads `local`.
    pub fn resolve(&self, local: LocalDateTime) -> (r: LocalResolution)
        requires
            self.wf(),
            local.wf(),
        ensures
            resolution_reads_as(r, local),
            *self matches Zone::Fixed(offset) ==> r == Self::fixed_resolution(offset, local),
    {
        match self {
            Zone::Fixed(offset) => {
                let utc_secs = local.secs - *offset as i64;
                if MIN_SECONDS <= utc_secs && utc_secs <= MAX_SECONDS {
                    LocalResolution::Single(
                        ZonedDateTime {
                            utc: Instant { secs: utc_secs, nanos: local.nanos },
                            offset_secs: *offset,
                        },
                    )
                } else {
                    LocalResolution::Nonexistent
                }
            },
            Zone::Local => resolve_in_local_zone(local),
        }
    }

    /// The date-time of `instant` as this zone's wall clock shows it.
    pub fn at(&self, instant: Instant) -> (r: ZonedDateTime)
        requires
            self.wf(),
            instant.wf(),
        ensures
            r.wf(),
            r.utc == instant,
            *self matches Zone::Fixed(offset) ==> r.offset_secs == offset,
    {
        match self {
            Zone::Fixed(offset) => ZonedDateTime { utc: instant, offset_secs: *offset },
            Zone::Local => ZonedDateTime { utc: instant, offset_secs: local_offset_at(instant) },
        }
    }
}

/// The UTC offset in force at `instant` in the machine's time zone, through
/// `chrono::DateTime::with_timezone(&chrono::Local)`. The offset depends on
/// the time-zone database and can change between calls; the claim is only
/// that it is a valid `chrono::FixedOffset`, which chrono keeps strictly
/// within one day.
#[verifier::external_body]
fn local_offset_at(instant: Instant) -> (offset: i32)
    requires
        instant.wf(),
    ensures
        offset_in_range(offset as int),
{
    let utc = chrono::DateTime::from_timestamp(instant.secs, instant.nanos).expect("instant in range");
    utc.with_timezone(&chrono::Local).offset().local_minus_utc()
}

/// The date-times at which the machine's wall clock reads `local`, through
/// `chrono::Local.from_local_datetime`. Which of the three outcomes comes
/// back depends on the time-zone database; the claim is what chrono's
/// `TimeZone::from_local_datetime` builds in every case: each date-time
/// subtracts its own (valid) offset from `local` and stays in range, so its
/// wall clock reads `local`.
#[verifier::external_body]
fn resolve_in_local_zone(local: LocalDateTime) -> (r: LocalResolution)
    requires
        local.wf(),
    ensures
        resolution_reads_as(r, local),
{
    let naive = chrono::DateTime::from_timestamp(local.secs, local.nanos).expect("local in range").naive_utc();
    let zoned = |d: chrono::DateTime<chrono::Local>| ZonedDateTime {
        utc: Instant { secs: d.timestamp(), nanos: d.timestamp_subsec_nanos() },
        offset_secs: d.offset().local_minus_utc(),
    };
    match chrono::Local.from_local_datetime(&naive) {
        chrono::LocalResult::Single(a) => LocalResolution::Single(zoned(a)),
        chrono::LocalResult::Ambiguous(a, b) => LocalResolution::Ambiguous(zoned(a), zoned(b)),
        chrono::LocalResult::None => LocalResolution::Nonexistent,
    }
}

} // verus!
