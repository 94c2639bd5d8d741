//! The three requests the service answers: a quote, the creation of a timer, and the
//! time left on a timer.
use vstd::prelude::*;
use crate::time::{nanos_per_minute, Timestamp};
use crate::timer::{
    create_timer, lookup_status, status_spec, timer_for, Registry, StatusError,
    StatusResponse, Timer,
};

verus! {

/// The body of a quote request.
#[derive(Clone, Copy, Debug, PartialEq, Eq)]
pub struct QuoteResponse {
    pub quote: &'static str,
}

/// The quote every request for one receives.
pub open spec fn quote_text() -> Seq<char> {
    "You can do it!"@
}

/// Answers a quote request: always the same words.
pub fn quote_handler() -> (r: QuoteResponse)
    ensures
        r.quote@ == quote_text(),
{
    proof {
        reveal_strlit("You can do it!");
    }
    QuoteResponse { quote: "You can do it!" }
}

/// Relies on chrono::Utc::now: the system clock read as a `DateTime<Utc>`, built with
/// `DateTime::from_timestamp` from the whole seconds since the Unix epoch (never negative:
/// it panics on a clock set before the epoch) and the nanoseconds past them, below one
/// second; `timestamp` and `timestamp_subsec_nanos` give those two parts back.
#[verifier::external_body]
fn current_time() -> (r: Timestamp)
    ensures
        r.wf(),
        r.secs >= 0,
{
    let now = chrono::Utc::now();
    Timestamp { secs: now.timestamp(), nanos: now.timestamp_subsec_nanos() }
}

/// Relies on uuid::Uuid::new_v4: a random version-4 identifier, taken as its 128-bit value
/// by `Uuid::as_u128`.
#[verifier::external_body]
fn fresh_id() -> (r: u128) {
    uuid::Uuid::new_v4().as_u128()
}

/// Answers a creation request: a timer with a fresh random identifier that starts now and
/// runs for `duration_in_min` minutes, filed in `timers`. `None`, with `timers` unchanged,
/// where its end would lie past the latest representable instant, which can only happen
/// for a positive duration.
pub fn timer_handler(timers: &mut Registry, duration_in_min: u64) -> (r: Option<Timer>)
    requires
        old(timers).wf(),
    ensures
        final(timers).wf(),
        duration_in_min == 0 ==> r is Some,
        r matches Some(t) ==> {
            &&& t.wf()
            &&& t.start.secs >= 0
            &&& r == timer_for(t.id, t.start, duration_in_min)
            &&& t.end.total_nanos() == t.start.total_nanos() + duration_in_min * nanos_per_minute()
            &&& final(timers)@ == old(timers)@.insert(t.id, t)
            &&& final(timers)@.contains_key(t.id)
        },
        r is None ==> final(timers)@ == old(timers)@,
{
    let start = current_time();
    let id = fresh_id();
    let r = create_timer(timers, id, start, duration_in_min);
    proof {
        if r is Some {
            let t = r->Some_0;
            assert(t.end.total_nanos() == t.start.total_nanos() + duration_in_min
                * nanos_per_minute()) by (nonlinear_arith)
                requires
                    t.start == start,
                    t.end.secs == start.secs + 60 * duration_in_min,
                    t.end.nanos == start.nanos,
                    nanos_per_minute() == 60_000_000_000int,
                    t.end.total_nanos() == t.end.secs * 1_000_000_000int + t.end.nanos,
                    t.start.total_nanos() == t.start.secs * 1_000_000_000int + t.start.nanos,
            ;
        }
    }
    r
}

/// Answers a status request: the time left now on the timer filed under `id`, or
/// `NotFound` where there is none.
pub fn status_handler(timers: &Registry, id: u128) -> (r: Result<StatusResponse, StatusError>)
    requires
        timers.wf(),
    ensures
        r is Err <==> !timers@.contains_key(id),
        r matches Err(e) ==> e == StatusError::NotFound,
        r matches Ok(s) ==> exists|now: Timestamp|
            now.wf() && now.secs >= 0 && s == #[trigger] status_spec(timers@[id], now),
{
    let now = current_time();
    let r = lookup_status(timers, id, now);
    proof {
        if r is Ok {
            assert(r->Ok_0 == status_spec(timers@[id], now));
        }
    }
    r
}

} // verus!
