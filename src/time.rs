//! Instants in UTC and the signed spans between them.
use vstd::prelude::*;
use vstd::arithmetic::div_mod::{lemma_div_denominator, lemma_fundamental_div_mod_converse};

verus! {

/// Nanoseconds in one second.
pub const NANOS_PER_SEC: u32 = 1_000_000_000;

/// Seconds in one minute.
pub const SECS_PER_MINUTE: u64 = 60;

/// Seconds in one hour.
pub const SECS_PER_HOUR: u64 = 3600;

/// Earliest representable instant: -262143-01-01T00:00:00Z, in seconds since the Unix epoch.
pub const MIN_SECS: i64 = -8_334_601_228_800;

/// Latest representable instant: +262142-12-31T23:59:59Z, in seconds since the Unix epoch.
pub const MAX_SECS: i64 = 8_210_266_876_799;

/// An instant in UTC: whole seconds since 1970-01-01T00:00:00Z and the nanoseconds past them.
#[derive(Clone, Copy, Debug, PartialEq, Eq, Structural)]
pub struct Timestamp {
    pub secs: i64,
    pub nanos: u32,
}

impl Timestamp {
    /// The instant lies in the representable range and its fraction is below one second.
    pub open spec fn wf(self) -> bool {
        &&& MIN_SECS <= self.secs <= MAX_SECS
        &&& self.nanos < NANOS_PER_SEC
    }

    /// The instant as a count of nanoseconds since the Unix epoch.
    pub open spec fn total_nanos(self) -> int {
        self.secs * NANOS_PER_SEC as int + self.nanos as int
    }

    /// Builds an instant, refusing one outside the representable range or with a fraction
    /// of a second or more.
    pub fn from_parts(secs: i64, nanos: u32) -> (r: Option<Timestamp>)
        ensures
            r matches Some(t) <==> (Timestamp { secs, nanos }).wf(),
            r matches Some(t) ==> t.secs == secs && t.nanos == nanos,
    {
        if MIN_SECS <= secs && secs <= MAX_SECS && nanos < NANOS_PER_SEC {
            Some(Timestamp { secs, nanos })
        } else {
            None
        }
    }

    /// The instant `minutes` whole minutes after `self`, or `None` where it would lie past
    /// the latest representable instant.
    pub fn plus_minutes(&self, minutes: u64) -> (r: Option<Timestamp>)
        requires
            self.wf(),
        ensures
            r matches Some(t) <==> self.secs + 60 * minutes <= MAX_SECS,
            r matches Some(t) ==> t.wf() && t.secs == self.secs + 60 * minutes && t.nanos
                == self.nanos,
            r matches Some(t) ==> t.total_nanos() == self.total_nanos() + minutes
                * nanos_per_minute(),
    {
        let room: u64 = (MAX_SECS - self.secs) as u64;
        if minutes > room / SECS_PER_MINUTE {
            proof {
                assert(minutes >= room / 60 + 1);
                assert(60 * minutes >= 60 * (room / 60 + 1)) by (nonlinear_arith)
                    requires minutes >= room / 60 + 1;
                assert(60 * (room / 60 + 1) > room) by {
                    lemma_fundamental_div_mod_converse(room as int, 60, room as int / 60, room as int % 60);
                }
            }
            None
        } else {
            proof {
                assert(60 * minutes <= 60 * (room / 60)) by (nonlinear_arith)
                    requires minutes <= room / 60;
                assert(60 * (room / 60) <= room) by {
                    lemma_fundamental_div_mod_converse(room as int, 60, room as int / 60, room as int % 60);
                }
            }
            let secs: i64 = self.secs + (minutes * SECS_PER_MINUTE) as i64;
            let t = Timestamp { secs, nanos: self.nanos };
            proof {
                assert(t.total_nanos() == self.total_nanos() + minutes * nanos_per_minute())
                    by (nonlinear_arith)
                    requires
                        t.secs == self.secs + 60 * minutes,
                        t.nanos == self.nanos,
                        nanos_per_minute() == 60_000_000_000int,
                        t.total_nanos() == t.secs * 1_000_000_000int + t.nanos,
                        self.total_nanos() == self.secs * 1_000_000_000int + self.nanos,
                ;
            }
            Some(t)
        }
    }
}

/// Whole seconds from `from` to `to`, rounded toward zero: negative where `to` is earlier.
pub fn whole_seconds_between(from: Timestamp, to: Timestamp) -> (r: i64)
    requires
        from.wf(),
        to.wf(),
    ensures
        r == trunc_div(to.total_nanos() - from.total_nanos(), NANOS_PER_SEC as int),
{
    let mut secs: i64 = to.secs - from.secs;
    let mut nanos: i64 = to.nanos as i64 - from.nanos as i64;
    if nanos < 0 {
        secs = secs - 1;
        nanos = nanos + NANOS_PER_SEC as i64;
    }
    let ghost total: int = to.total_nanos() - from.total_nanos();
    let ghost d: int = NANOS_PER_SEC as int;
    assert(total == secs * d + nanos) by (nonlinear_arith)
        requires
            total == (to.secs * d + to.nanos) - (from.secs * d + from.nanos),
            secs * d + nanos == (to.secs - from.secs) * d + (to.nanos - from.nanos),
    ;
    if secs >= 0 {
        proof {
            lemma_fundamental_div_mod_converse(total, d, secs as int, nanos as int);
        }
        secs
    } else if nanos == 0 {
        proof {
            lemma_fundamental_div_mod_converse(-total, d, -secs, 0);
        }
        secs
    } else {
        proof {
            lemma_fundamental_div_mod_converse(-total, d, -secs - 1, d - nanos);
        }
        secs + 1
    }
}

/// Nanoseconds in one minute.
pub open spec fn nanos_per_minute() -> int {
    60 * NANOS_PER_SEC as int
}

/// Nanoseconds in one hour.
pub open spec fn nanos_per_hour() -> int {
    3600 * NANOS_PER_SEC as int
}

/// `a / d` rounded toward zero.
pub open spec fn trunc_div(a: int, d: int) -> int
    recommends
        d > 0,
{
    if a >= 0 {
        a / d
    } else {
        -((-a) / d)
    }
}

/// Nested quotients rounded toward zero equal one quotient by the product.
pub proof fn lemma_trunc_div_nested(a: int, c: int, d: int)
    requires
        c > 0,
        d > 0,
    ensures
        trunc_div(trunc_div(a, c), d) == trunc_div(a, c * d),
{
    if a >= 0 {
        lemma_div_denominator(a, c, d);
        assert(a / c >= 0) by (nonlinear_arith)
            requires a >= 0, c > 0;
    } else {
        lemma_div_denominator(-a, c, d);
        assert((-a) / c >= 0) by (nonlinear_arith)
            requires -a >= 0, c > 0;
        if (-a) / c == 0 {
            assert(trunc_div(a, c) == 0);
            assert((-a) / (c * d) == 0) by (nonlinear_arith)
                requires (-a) / c == 0, -a > 0, c > 0, d > 0, ((-a) / c) / d == (-a) / (c * d);
        }
    }
}

} // verus!
