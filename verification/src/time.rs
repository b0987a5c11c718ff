//! Spans of time and points in time.

use vstd::prelude::*;

verus! {

/// A span of time: whole seconds and less than one second beyond them.
#[derive(Clone, Copy, Debug, PartialEq, Eq, Structural)]
pub struct Duration {
    secs: u64,
    nanos: u32,
}

impl Duration {
    #[verifier::type_invariant]
    spec fn below_one_second(self) -> bool {
        self.nanos < 1_000_000_000
    }

    /// The whole seconds.
    pub closed spec fn secs(self) -> u64 {
        self.secs
    }

    /// The nanoseconds beyond the whole seconds.
    pub closed spec fn nanos(self) -> u32 {
        self.nanos
    }

    /// A number of whole seconds.
    pub closed spec fn of_secs(n: u64) -> Duration {
        Duration { secs: n, nanos: 0 }
    }

    /// No time at all.
    pub fn zero() -> (r: Duration)
        ensures
            r == Duration::of_secs(0),
            r.secs() == 0,
            r.nanos() == 0,
    {
        Duration { secs: 0, nanos: 0 }
    }

    /// A number of whole seconds.
    pub fn from_secs(secs: u64) -> (r: Duration)
        ensures
            r == Duration::of_secs(secs),
            r.secs() == secs,
            r.nanos() == 0,
    {
        Duration { secs, nanos: 0 }
    }

    /// A number of milliseconds.
    pub fn from_millis(millis: u64) -> (r: Duration)
        ensures
            r.secs() == millis / 1000,
            r.nanos() == (millis % 1000) * 1_000_000,
    {
        Duration { secs: millis / 1000, nanos: (millis % 1000) as u32 * 1_000_000 }
    }

    /// Whole seconds and nanoseconds, if the latter stay below one second.
    pub fn from_parts(secs: u64, nanos: u32) -> (r: Option<Duration>)
        ensures
            r is Some <==> nanos < 1_000_000_000,
            r matches Some(d) ==> d.secs() == secs && d.nanos() == nanos,
    {
        if nanos < 1_000_000_000 {
            Some(Duration { secs, nanos })
        } else {
            None
        }
    }

    /// The whole seconds.
    pub fn as_secs(&self) -> (r: u64)
        ensures
            r == self.secs(),
    {
        self.secs
    }

    /// The nanoseconds beyond the whole seconds.
    pub fn subsec_nanos(&self) -> (r: u32)
        ensures
            r == self.nanos(),
            r < 1_000_000_000,
    {
        proof {
            use_type_invariant(self);
        }
        self.nanos
    }
}

/// A point in time: seconds since the Unix epoch and nanoseconds beyond them.
#[derive(Clone, Copy, Debug, PartialEq, Eq, Structural)]
pub struct Timestamp {
    pub secs: i64,
    pub nanos: u32,
}

impl Timestamp {
    /// Whether the nanoseconds stay below one second and the point lies within
    /// the calendar's years, -262143 to 262142.
    pub open spec fn wf(self) -> bool {
        self.nanos < 1_000_000_000 && -8_334_601_228_800 <= self.secs <= 8_210_266_876_799
    }

    /// The nanoseconds since the Unix epoch.
    pub open spec fn total(self) -> int {
        self.secs * 1_000_000_000 + self.nanos
    }

    /// The point in time that lies a span later, if the calendar has it.
    pub fn plus(&self, secs: i64, nanos: u32) -> (r: Option<Timestamp>)
        requires
            self.wf(),
            nanos < 1_000_000_000,
        ensures
            match r {
                Some(t) => t.wf() && t.total() == self.total() + secs * 1_000_000_000 + nanos,
                None => !in_calendar(self.total() + secs * 1_000_000_000 + nanos),
            },
    {
        let n: u32 = self.nanos + nanos;
        let (carry, rest): (i64, u32) = if n >= 1_000_000_000 {
            (1, n - 1_000_000_000)
        } else {
            (0, n)
        };
        if secs > 16_600_000_000_000 || secs < -16_600_000_000_000 {
            return None;
        }
        let total: i64 = self.secs + secs + carry;
        if total < -8_334_601_228_800 || total > 8_210_266_876_799 {
            return None;
        }
        Some(Timestamp { secs: total, nanos: rest })
    }

    /// Whether this point in time is not after the other.
    pub open spec fn at_or_before(self, other: Timestamp) -> bool {
        self.secs < other.secs || (self.secs == other.secs && self.nanos <= other.nanos)
    }

    /// Compares two points in time.
    pub fn not_after(&self, other: &Timestamp) -> (r: bool)
        ensures
            r == self.at_or_before(*other),
    {
        self.secs < other.secs || (self.secs == other.secs && self.nanos <= other.nanos)
    }
}

/// Whether a number of nanoseconds since the Unix epoch lies within the
/// calendar's years.
pub open spec fn in_calendar(nanos: int) -> bool {
    -8_334_601_228_800 * 1_000_000_000 <= nanos < 8_210_266_876_800 * 1_000_000_000
}

/// The most seconds that a `chrono::TimeDelta` holds.
pub open spec fn max_span_secs() -> int {
    9_223_372_036_854_775
}

/// A number of seconds, if a `chrono::TimeDelta` can hold them.
pub open spec fn span_of(secs: int) -> Option<int> {
    if -max_span_secs() <= secs <= max_span_secs() {
        Some(secs)
    } else {
        None
    }
}

/// What an optional number of seconds is.
pub open spec fn opt_int(o: Option<i64>) -> Option<int> {
    match o {
        Some(n) => Some(n as int),
        None => None,
    }
}

/// `chrono::TimeDelta::try_days` gives a span of days, in seconds here, unless
/// it is longer than the type holds.
#[verifier::external_body]
pub(crate) fn days_span(days: i64) -> (r: Option<i64>)
    ensures
        opt_int(r) == span_of(days * 86_400),
{
    chrono::TimeDelta::try_days(days).map(|d| d.num_seconds())
}

/// `chrono::TimeDelta::try_hours` gives a span of hours, in seconds here,
/// unless it is longer than the type holds.
#[verifier::external_body]
pub(crate) fn hours_span(hours: i64) -> (r: Option<i64>)
    ensures
        opt_int(r) == span_of(hours * 3_600),
{
    chrono::TimeDelta::try_hours(hours).map(|d| d.num_seconds())
}

/// `chrono::TimeDelta::try_minutes` gives a span of minutes, in seconds here,
/// unless it is longer than the type holds.
#[verifier::external_body]
pub(crate) fn minutes_span(minutes: i64) -> (r: Option<i64>)
    ensures
        opt_int(r) == span_of(minutes * 60),
{
    chrono::TimeDelta::try_minutes(minutes).map(|d| d.num_seconds())
}

/// `chrono::TimeDelta::try_seconds` gives a span of seconds, unless it is
/// longer than the type holds.
#[verifier::external_body]
pub(crate) fn seconds_span(seconds: i64) -> (r: Option<i64>)
    ensures
        opt_int(r) == span_of(seconds as int),
{
    chrono::TimeDelta::try_seconds(seconds).map(|d| d.num_seconds())
}

/// Whether a `chrono::TimeDelta` can hold seconds and nanoseconds.
pub open spec fn span_fits(secs: int, nanos: int) -> bool {
    secs < max_span_secs() || (secs == max_span_secs() && nanos <= 807_000_000)
}

/// `chrono::TimeDelta::from_std` takes over a span of the standard library, as
/// whole seconds and nanoseconds here, unless it is longer than the type
/// holds. The error says so.
#[verifier::external_body]
pub(crate) fn std_span(secs: u64, nanos: u32) -> (r: Result<(i64, i32), String>)
    requires
        nanos < 1_000_000_000,
    ensures
        match r {
            Ok((s, n)) => span_fits(secs as int, nanos as int) && s == secs && n == nanos,
            Err(e) => !span_fits(secs as int, nanos as int) && e@
                == "Source duration value is out of range for the target type"@,
        },
{
    match chrono::TimeDelta::from_std(std::time::Duration::new(secs, nanos)) {
        Ok(d) => Ok((d.num_seconds(), d.subsec_nanos())),
        Err(e) => Err(e.to_string()),
    }
}

/// `chrono::Utc::now` reads the system clock. Of the moment it returns nothing
/// is claimed but that the calendar has it and that it is no leap second.
#[verifier::external_body]
pub(crate) fn utc_now() -> (r: Timestamp)
    ensures
        r.wf(),
{
    let now = chrono::Utc::now();
    Timestamp { secs: now.timestamp(), nanos: now.timestamp_subsec_nanos() }
}

/// How `chrono::DateTime::to_rfc3339_opts` writes a point in time, with as many
/// digits of the second as it takes and `Z` for the zone.
pub uninterp spec fn rfc3339(secs: i64, nanos: u32) -> Seq<char>;

/// `chrono::DateTime::to_rfc3339_opts` writes a point in time. There is a text
/// for each that the calendar has; it depends on the point alone and is named
/// `rfc3339`.
#[verifier::external_body]
pub(crate) fn time_text(t: &Timestamp) -> (r: Option<String>)
    requires
        t.wf(),
    ensures
        r is Some,
        r->0@ == rfc3339(t.secs, t.nanos),
{
    chrono::DateTime::from_timestamp(t.secs, t.nanos).map(
        |d| d.to_rfc3339_opts(chrono::SecondsFormat::AutoSi, true),
    )
}

} // verus!
