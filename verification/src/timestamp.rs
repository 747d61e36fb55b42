//! Normalised market timestamps and time spans.
//!
//! A [`MarketTimestamp`] is a UTC instant (whole seconds since the Unix epoch
//! plus the nanoseconds within that second) whose second count is positive
//! and whose calendar year lies in 2000..=2100. The calendar year of an
//! instant comes from chrono.

use vstd::prelude::*;
use crate::errors::MarketDataError;
use crate::text::owned;

verus! {

/// The calendar year (UTC) chrono assigns to a Unix second count, or `None`
/// where chrono cannot represent that instant.
pub uninterp spec fn utc_calendar_year(secs: i64) -> Option<i32>;

/// Bound on the second counts chrono represents (its years lie within
/// -262143..=262142): 2^43.
pub open spec fn chrono_secs_bound() -> int {
    8_796_093_022_208
}

/// `DateTime::<Utc>::from_timestamp(secs, 0)` followed by `Datelike::year`.
/// The contract names the year and states chrono's documented range: there
/// is a result only for second counts within its years -262143..=262142,
/// which all lie strictly within ±2^43 seconds of the epoch.
#[verifier::external_body]
fn utc_year(secs: i64) -> (r: Option<i32>)
    ensures
        r == utc_calendar_year(secs),
        r is Some ==> -chrono_secs_bound() < secs < chrono_secs_bound(),
{
    chrono::DateTime::from_timestamp(secs, 0).map(|d| chrono::Datelike::year(&d))
}

/// An instant the library accepts: after the epoch and in years 2000..=2100.
pub open spec fn valid_epoch_secs(secs: i64) -> bool {
    &&& secs > 0
    &&& utc_calendar_year(secs) matches Some(y)
    &&& 2000 <= y <= 2100
}

pub open spec fn nanos_per_sec() -> int {
    1_000_000_000
}

/// A span of time, as `std::time::Duration` holds it: whole seconds and the
/// nanoseconds within the last second.
#[derive(Clone, Copy, PartialEq, Eq, Structural, Debug)]
pub struct TimeSpan {
    secs: u64,
    nanos: u32,
}

impl TimeSpan {
    #[verifier::type_invariant]
    spec fn inv(self) -> bool {
        self.nanos < 1_000_000_000
    }

    pub closed spec fn secs_spec(self) -> u64 {
        self.secs
    }

    pub closed spec fn nanos_spec(self) -> u32 {
        self.nanos
    }

    /// Length in nanoseconds.
    pub open spec fn total_nanos(self) -> int {
        self.secs_spec() * nanos_per_sec() + self.nanos_spec()
    }

    pub fn from_secs(secs: u64) -> (r: TimeSpan)
        ensures
            r.secs_spec() == secs,
            r.nanos_spec() == 0,
    {
        TimeSpan { secs, nanos: 0 }
    }

    pub fn from_millis(millis: u64) -> (r: TimeSpan)
        ensures
            r.total_nanos() == millis * 1_000_000,
            r.nanos_spec() < 1_000_000_000,
    {
        TimeSpan { secs: millis / 1000, nanos: ((millis % 1000) * 1_000_000) as u32 }
    }

    pub fn from_nanos(nanos: u64) -> (r: TimeSpan)
        ensures
            r.total_nanos() == nanos,
            r.nanos_spec() < 1_000_000_000,
    {
        TimeSpan { secs: nanos / 1_000_000_000, nanos: (nanos % 1_000_000_000) as u32 }
    }

    /// Whole seconds, as `Duration::as_secs`.
    pub fn as_secs(&self) -> (r: u64)
        ensures
            r == self.secs_spec(),
    {
        self.secs
    }

    /// The nanoseconds within the last second, as `Duration::subsec_nanos`.
    pub fn subsec_nanos(&self) -> (r: u32)
        ensures
            r == self.nanos_spec(),
            r < 1_000_000_000,
    {
        proof {
            use_type_invariant(self);
        }
        self.nanos
    }

    /// Builds a span from whole seconds and nanoseconds, as `Duration::new`:
    /// whole seconds among the nanoseconds carry over into the seconds (the
    /// carry must fit, where `Duration::new` panics).
    pub fn new(secs: u64, nanos: u32) -> (r: TimeSpan)
        requires
            secs + nanos / 1_000_000_000 <= u64::MAX,
        ensures
            r.secs_spec() == secs + nanos / 1_000_000_000,
            r.nanos_spec() == nanos % 1_000_000_000,
            r.total_nanos() == secs * nanos_per_sec() + nanos,
    {
        TimeSpan { secs: secs + (nanos / 1_000_000_000) as u64, nanos: nanos % 1_000_000_000 }
    }

    /// `self >= other`.
    pub fn ge(&self, other: &TimeSpan) -> (r: bool)
        ensures
            r == (self.total_nanos() >= other.total_nanos()),
    {
        proof {
            use_type_invariant(self);
            use_type_invariant(other);
        }
        self.secs > other.secs || (self.secs == other.secs && self.nanos >= other.nanos)
    }
}

/// A validated UTC instant of a market event.
#[derive(Clone, Copy, PartialEq, Eq, Structural, PartialOrd, Ord, Hash, Debug)]
pub struct MarketTimestamp {
    secs: i64,
    nanos: u32,
}

impl MarketTimestamp {
    #[verifier::type_invariant]
    spec fn inv(self) -> bool {
        &&& valid_epoch_secs(self.secs)
        &&& self.secs < chrono_secs_bound()
        &&& self.nanos < 1_000_000_000
    }

    /// Whole seconds since the Unix epoch.
    pub closed spec fn secs_spec(self) -> i64 {
        self.secs
    }

    /// Nanoseconds within the second.
    pub closed spec fn nanos_spec(self) -> u32 {
        self.nanos
    }

    /// Nanoseconds since the Unix epoch: the position on the time line that
    /// orders timestamps.
    pub open spec fn instant(self) -> int {
        self.secs_spec() * nanos_per_sec() + self.nanos_spec()
    }

    /// Milliseconds since the Unix epoch (rounded down).
    pub open spec fn millis_spec(self) -> int {
        self.secs_spec() * 1000 + self.nanos_spec() / 1_000_000
    }

    /// Builds a timestamp from a UTC instant given as whole seconds and
    /// sub-second nanoseconds, checking the invariant (what `from_utc` does
    /// with a `DateTime<Utc>`).
    ///
    /// Nanoseconds of a billion or more mark a leap second, as chrono writes
    /// it: the second `secs` stretched past its end. Such an instant is kept
    /// as the same point of the time line in the following second, and it is
    /// accepted when both seconds are valid.
    pub fn from_utc_parts(secs: i64, nanos: u32) -> (r: Result<MarketTimestamp, MarketDataError>)
        requires
            nanos < 2_000_000_000,
        ensures
            nanos < 1_000_000_000 ==> (valid_epoch_secs(secs) ==> (r matches Ok(t) && t.secs_spec()
                == secs && t.nanos_spec() == nanos)),
            nanos < 1_000_000_000 ==> (!valid_epoch_secs(secs) ==> (r matches Err(
                MarketDataError::InvalidTimestamp(m),
            ) && m@ == "Invalid timestamp"@)),
            nanos >= 1_000_000_000 ==> (valid_epoch_secs(secs) && secs < i64::MAX && valid_epoch_secs(
                (secs + 1) as i64,
            ) ==> (r matches Ok(t) && t.secs_spec() == secs + 1 && t.nanos_spec() == nanos
                - 1_000_000_000)),
            nanos >= 1_000_000_000 ==> (!(valid_epoch_secs(secs) && secs < i64::MAX
                && valid_epoch_secs((secs + 1) as i64)) ==> (r matches Err(
                MarketDataError::InvalidTimestamp(m),
            ) && m@ == "Invalid timestamp"@)),
            r matches Ok(t) ==> t.instant() == secs * nanos_per_sec() + nanos && t.millis_spec()
                == secs * 1000 + nanos / 1_000_000,
    {
        if nanos < 1_000_000_000 {
            Self::checked_parts(secs, nanos)
        } else {
            let first = Self::checked_parts(secs, 0);
            if first.is_err() || secs == i64::MAX {
                return Err(MarketDataError::InvalidTimestamp(owned("Invalid timestamp")));
            }
            let r = Self::checked_parts(secs + 1, nanos - 1_000_000_000);
            assert(r matches Ok(t) ==> t.millis_spec() == secs * 1000 + nanos / 1_000_000) by (
            nonlinear_arith)
                requires
                    r matches Ok(t) ==> t.secs_spec() == secs + 1 && t.nanos_spec() == nanos
                        - 1_000_000_000,
                    nanos >= 1_000_000_000,
            ;
            r
        }
    }

    /// The timestamp `secs` seconds and `nanos` nanoseconds after the epoch,
    /// where the second count is valid.
    fn checked_parts(secs: i64, nanos: u32) -> (r: Result<MarketTimestamp, MarketDataError>)
        requires
            nanos < 1_000_000_000,
        ensures
            valid_epoch_secs(secs) ==> (r matches Ok(t) && t.secs_spec() == secs && t.nanos_spec() == nanos),
            !valid_epoch_secs(secs) ==> (r matches Err(MarketDataError::InvalidTimestamp(m))
                && m@ == "Invalid timestamp"@),
    {
        if secs <= 0 {
            return Err(MarketDataError::InvalidTimestamp(owned("Invalid timestamp")));
        }
        match utc_year(secs) {
            Some(y) => {
                if y < 2000 || y > 2100 {
                    Err(MarketDataError::InvalidTimestamp(owned("Invalid timestamp")))
                } else {
                    Ok(MarketTimestamp { secs, nanos })
                }
            },
            None => Err(MarketDataError::InvalidTimestamp(owned("Invalid timestamp"))),
        }
    }

    /// Timestamp from Unix epoch milliseconds.
    pub fn from_epoch_millis(ms: i64) -> (r: Result<MarketTimestamp, MarketDataError>)
        ensures
            valid_epoch_secs((ms as int / 1000) as i64) ==> (r matches Ok(t) && t.millis_spec() == ms
                && t.secs_spec() == ms as int / 1000 && t.nanos_spec() == (ms as int % 1000)
                * 1_000_000),
            !valid_epoch_secs((ms as int / 1000) as i64) ==> (r matches Err(
                MarketDataError::InvalidTimestamp(m),
            ) && m@ == "Invalid timestamp"@),
    {
        if ms < 1000 {
            assert(ms as int / 1000 <= 0);
            return Err(MarketDataError::InvalidTimestamp(owned("Invalid timestamp")));
        }
        let secs: i64 = ms / 1000;
        let nanos: u32 = ((ms % 1000) * 1_000_000) as u32;
        Self::from_utc_parts(secs, nanos)
    }

    /// Timestamp from Unix epoch seconds.
    pub fn from_epoch_secs(secs: i64) -> (r: Result<MarketTimestamp, MarketDataError>)
        ensures
            valid_epoch_secs(secs) ==> (r matches Ok(t) && t.secs_spec() == secs && t.nanos_spec() == 0),
            !valid_epoch_secs(secs) ==> (r matches Err(MarketDataError::InvalidTimestamp(m))
                && m@ == "Invalid timestamp"@),
    {
        Self::from_utc_parts(secs, 0)
    }

    /// Timestamp from a raw epoch number whose unit is told by its size:
    /// below `100_000_000_000` it counts seconds, otherwise milliseconds.
    pub fn from_raw_epoch(epoch: i64) -> (r: Result<MarketTimestamp, MarketDataError>)
        ensures
            raw_epoch_outcome(epoch, r),
    {
        if epoch < 100_000_000_000 {
            Self::from_epoch_secs(epoch)
        } else {
            Self::from_epoch_millis(epoch)
        }
    }

    /// The calendar year (UTC) of the instant, as chrono reckons it.
    pub fn year(&self) -> (r: i32)
        ensures
            utc_calendar_year(self.secs_spec()) == Some(r),
            2000 <= r <= 2100,
    {
        proof {
            use_type_invariant(self);
        }
        match utc_year(self.secs) {
            Some(y) => y,
            None => 2000,
        }
    }

    /// Milliseconds since the Unix epoch.
    pub fn timestamp_millis(&self) -> (r: i64)
        ensures
            r == self.millis_spec(),
    {
        proof {
            use_type_invariant(self);
        }
        self.secs * 1000 + (self.nanos / 1_000_000) as i64
    }

    /// Seconds since the Unix epoch.
    pub fn timestamp_secs(&self) -> (r: i64)
        ensures
            r == self.secs_spec(),
    {
        self.secs
    }

    /// Nanoseconds within the second.
    pub fn subsec_nanos(&self) -> (r: u32)
        ensures
            r == self.nanos_spec(),
            r < 1_000_000_000,
    {
        proof {
            use_type_invariant(self);
        }
        self.nanos
    }

    /// `self < other` on the time line.
    pub fn lt(&self, other: &MarketTimestamp) -> (r: bool)
        ensures
            r == (self.instant() < other.instant()),
    {
        proof {
            use_type_invariant(self);
            use_type_invariant(other);
        }
        self.secs < other.secs || (self.secs == other.secs && self.nanos < other.nanos)
    }

    /// `self <= other` on the time line.
    pub fn le(&self, other: &MarketTimestamp) -> (r: bool)
        ensures
            r == (self.instant() <= other.instant()),
    {
        !other.lt(self)
    }

    /// `self == other`.
    pub fn same(&self, other: &MarketTimestamp) -> (r: bool)
        ensures
            r == (self == other),
            r == (self.instant() == other.instant()),
    {
        proof {
            use_type_invariant(self);
            use_type_invariant(other);
        }
        self.secs == other.secs && self.nanos == other.nanos
    }

    /// The instant `span` earlier, if it is still a valid timestamp.
    ///
    /// A span longer than chrono's largest `TimeDelta` (`i64::MAX`
    /// milliseconds) is refused with chrono's conversion message.
    pub fn checked_sub_duration(&self, span: TimeSpan) -> (r: Result<MarketTimestamp, MarketDataError>)
        ensures
            !span_fits_delta(span) ==> (r matches Err(MarketDataError::InvalidTimestamp(m)) && m@
                == "Source duration value is out of range for the target type"@),
            span_fits_delta(span) && valid_epoch_secs(floor_secs(self.instant() - span.total_nanos()))
                ==> (r matches Ok(t) && t.instant() == self.instant() - span.total_nanos()),
            span_fits_delta(span) && !valid_epoch_secs(floor_secs(self.instant() - span.total_nanos()))
                ==> (r matches Err(MarketDataError::InvalidTimestamp(m)) && m@ == "Invalid timestamp"@),
    {
        proof {
            use_type_invariant(self);
            use_type_invariant(&span);
        }
        let ds = span.as_secs();
        let dn = span.subsec_nanos();
        if ds > 9_223_372_036_854_775 || (ds == 9_223_372_036_854_775 && dn > 807_000_000) {
            return Err(
                MarketDataError::InvalidTimestamp(
                    owned("Source duration value is out of range for the target type"),
                ),
            );
        }
        let mut s: i64 = self.secs - ds as i64;
        let mut n: i64 = self.nanos as i64 - dn as i64;
        if n < 0 {
            s = s - 1;
            n = n + 1_000_000_000;
        }
        assert(s * nanos_per_sec() + n == self.instant() - span.total_nanos());
        assert(s == floor_secs(self.instant() - span.total_nanos())) by (nonlinear_arith)
            requires
                s * 1_000_000_000 + n == self.instant() - span.total_nanos(),
                0 <= n < 1_000_000_000,
        ;
        Self::from_utc_parts(s, n as u32)
    }
}

/// A reading of a monotonic clock: nanoseconds since an origin fixed for the
/// running process.
#[derive(Clone, Copy, PartialEq, Eq, Structural, Debug)]
pub struct MonoInstant {
    nanos: u64,
}

impl MonoInstant {
    pub closed spec fn nanos_spec(self) -> u64 {
        self.nanos
    }

    pub fn from_nanos(nanos: u64) -> (r: MonoInstant)
        ensures
            r.nanos_spec() == nanos,
    {
        MonoInstant { nanos }
    }

    pub fn as_nanos(&self) -> (r: u64)
        ensures
            r == self.nanos_spec(),
    {
        self.nanos
    }

    /// The reading `span` later, or `None` past the clock's range.
    pub fn checked_add(&self, span: TimeSpan) -> (r: Option<MonoInstant>)
        ensures
            self.nanos_spec() + span.total_nanos() <= u64::MAX ==> (r matches Some(t) && t.nanos_spec()
                == self.nanos_spec() + span.total_nanos()),
            self.nanos_spec() + span.total_nanos() > u64::MAX ==> r is None,
    {
        let secs = span.as_secs();
        let sub = span.subsec_nanos();
        match secs.checked_mul(1_000_000_000) {
            None => {
                assert(secs * 1_000_000_000 >= 0);
                None
            },
            Some(whole) => match whole.checked_add(sub as u64) {
                None => None,
                Some(total) => match self.nanos.checked_add(total) {
                    None => None,
                    Some(n) => Some(MonoInstant { nanos: n }),
                },
            },
        }
    }

    /// Time elapsed since `earlier`, zero when `earlier` is the later
    /// reading (as `Instant::duration_since`).
    pub fn duration_since(&self, earlier: MonoInstant) -> (r: TimeSpan)
        ensures
            r.total_nanos() == if self.nanos_spec() >= earlier.nanos_spec() {
                self.nanos_spec() - earlier.nanos_spec()
            } else {
                0
            },
    {
        TimeSpan::from_nanos(self.nanos.saturating_sub(earlier.nanos))
    }
}

/// The second count a raw epoch number denotes: itself below
/// `100_000_000_000`, otherwise its milliseconds rounded down to seconds.
pub open spec fn raw_epoch_secs(epoch: i64) -> i64 {
    if epoch < 100_000_000_000 {
        epoch
    } else {
        (epoch as int / 1000) as i64
    }
}

/// What reading a raw epoch number gives: the timestamp of its second
/// count (and, for milliseconds, of its milliseconds) when that is valid,
/// otherwise the refusal.
pub open spec fn raw_epoch_outcome(epoch: i64, r: Result<MarketTimestamp, MarketDataError>) -> bool {
    if valid_epoch_secs(raw_epoch_secs(epoch)) {
        r matches Ok(t) && t.secs_spec() == raw_epoch_secs(epoch) && (epoch < 100_000_000_000
            ==> t.nanos_spec() == 0) && (epoch >= 100_000_000_000 ==> t.millis_spec() == epoch)
    } else {
        r matches Err(MarketDataError::InvalidTimestamp(m)) && m@ == "Invalid timestamp"@
    }
}

/// A span that chrono's `TimeDelta::from_std` accepts.
pub open spec fn span_fits_delta(span: TimeSpan) -> bool {
    span.secs_spec() < 9_223_372_036_854_775 || (span.secs_spec() == 9_223_372_036_854_775
        && span.nanos_spec() <= 807_000_000)
}

/// Whole seconds (rounded down) of a nanosecond count, as an `i64` second
/// count (only used on counts that fit).
pub open spec fn floor_secs(nanos: int) -> i64 {
    (nanos / 1_000_000_000) as i64
}

} // verus!
