//! Timers, the registry that holds them, and the time left on a timer.
use vstd::prelude::*;
use std::collections::BTreeMap;
use vstd::arithmetic::div_mod::lemma_fundamental_div_mod_converse;
use crate::time::{
    lemma_trunc_div_nested, nanos_per_hour, nanos_per_minute, trunc_div, whole_seconds_between,
    Timestamp, MAX_SECS, NANOS_PER_SEC, SECS_PER_HOUR, SECS_PER_MINUTE,
};

verus! {

broadcast use vstd::std_specs::btree::group_btree_axioms, vstd::laws_cmp::group_laws_cmp;

/// A countdown: its identifier, the instant it was created and the instant it runs out.
#[derive(Clone, Copy, Debug, PartialEq, Eq, Structural)]
pub struct Timer {
    pub id: u128,
    pub start: Timestamp,
    pub end: Timestamp,
}

impl Timer {
    /// Both instants are valid and the timer never ends before it starts.
    pub open spec fn wf(self) -> bool {
        &&& self.start.wf()
        &&& self.end.wf()
        &&& self.start.total_nanos() <= self.end.total_nanos()
    }
}

/// The timer named `id` that starts at `start` and runs for `minutes` minutes, where its
/// end is representable.
pub open spec fn timer_for(id: u128, start: Timestamp, minutes: u64) -> Option<Timer> {
    if start.secs + 60 * minutes <= MAX_SECS {
        Some(
            Timer {
                id,
                start,
                end: Timestamp { secs: (start.secs + 60 * minutes) as i64, nanos: start.nanos },
            },
        )
    } else {
        None
    }
}

/// Builds the timer named `id` that starts at `start` and runs for `duration_in_min`
/// minutes; `None` where its end would lie past the latest representable instant.
pub fn new_timer(id: u128, start: Timestamp, duration_in_min: u64) -> (r: Option<Timer>)
    requires
        start.wf(),
    ensures
        r == timer_for(id, start, duration_in_min),
        r matches Some(t) ==> t.wf() && t.end.total_nanos() == t.start.total_nanos()
            + duration_in_min * nanos_per_minute(),
{
    match start.plus_minutes(duration_in_min) {
        Some(end) => {
            assert(duration_in_min * nanos_per_minute() >= 0) by (nonlinear_arith)
                requires nanos_per_minute() == 60_000_000_000int;
            Some(Timer { id, start, end })
        },
        None => None,
    }
}

/// The store of every timer created, keyed by identifier.
pub struct Registry {
    timers: BTreeMap<u128, Timer>,
}

impl View for Registry {
    type V = Map<u128, Timer>;

    closed spec fn view(&self) -> Map<u128, Timer> {
        self.timers@
    }
}

impl Registry {
    /// Every timer is valid and filed under its own identifier.
    pub open spec fn wf(&self) -> bool {
        forall|k: u128| #[trigger]
            self@.contains_key(k) ==> self@[k].id == k && self@[k].wf()
    }

    /// An empty registry.
    pub fn new() -> (r: Registry)
        ensures
            r.wf(),
            r@ == Map::<u128, Timer>::empty(),
    {
        Registry { timers: BTreeMap::new() }
    }

    /// Files `timer` under its identifier.
    pub fn insert(&mut self, timer: Timer)
        requires
            old(self).wf(),
            timer.wf(),
        ensures
            final(self).wf(),
            final(self)@ == old(self)@.insert(timer.id, timer),
    {
        self.timers.insert(timer.id, timer);
        assert forall|k: u128| #[trigger] self@.contains_key(k) implies self@[k].id == k
            && self@[k].wf() by {
            if k != timer.id {
                assert(old(self)@.contains_key(k));
            }
        }
    }

    /// The timer filed under `id`, if any.
    pub fn get(&self, id: u128) -> (r: Option<Timer>)
        ensures
            r == (if self@.contains_key(id) {
                Some(self@[id])
            } else {
                None
            }),
    {
        match self.timers.get(&id) {
            Some(t) => Some(*t),
            None => None,
        }
    }

    /// The number of timers held.
    pub fn len(&self) -> (r: usize)
        ensures
            r == self@.len(),
    {
        self.timers.len()
    }
}

/// The time left on a timer, counted in each unit separately and rounded toward zero;
/// negative once the timer has run out.
#[derive(Clone, Copy, Debug, PartialEq, Eq, Structural)]
pub struct StatusResponse {
    pub seconds: i64,
    pub minutes: i64,
    pub hours: i64,
}

/// Nanoseconds from `now` until the end of `timer`.
pub open spec fn remaining_nanos(timer: Timer, now: Timestamp) -> int {
    timer.end.total_nanos() - now.total_nanos()
}

/// The status of `timer` seen at `now`.
pub open spec fn status_spec(timer: Timer, now: Timestamp) -> StatusResponse {
    StatusResponse {
        seconds: trunc_div(remaining_nanos(timer, now), NANOS_PER_SEC as int) as i64,
        minutes: trunc_div(remaining_nanos(timer, now), nanos_per_minute()) as i64,
        hours: trunc_div(remaining_nanos(timer, now), nanos_per_hour()) as i64,
    }
}

/// `s / d` rounded toward zero, for a positive `d`.
fn div_toward_zero(s: i64, d: u64) -> (r: i64)
    requires
        s > i64::MIN,
        0 < d <= i64::MAX,
    ensures
        r == trunc_div(s as int, d as int),
{
    if s >= 0 {
        ((s as u64) / d) as i64
    } else {
        let q: u64 = ((-s) as u64) / d;
        assert(q <= (-s) as u64) by (nonlinear_arith)
            requires q == ((-s) as u64) / d, d > 0;
        -(q as i64)
    }
}

/// The time left on `timer` at `now`.
pub fn status_at(timer: &Timer, now: Timestamp) -> (r: StatusResponse)
    requires
        timer.wf(),
        now.wf(),
    ensures
        r == status_spec(*timer, now),
{
    let seconds = whole_seconds_between(now, timer.end);
    let ghost delta = remaining_nanos(*timer, now);
    proof {
        let d = NANOS_PER_SEC as int;
        assert(-20_000_000_000_000 * d < delta < 20_000_000_000_000 * d) by (nonlinear_arith)
            requires
                delta == (timer.end.secs * d + timer.end.nanos) - (now.secs * d + now.nanos),
                d == 1_000_000_000,
                -8_334_601_228_800 <= timer.end.secs <= 8_210_266_876_799,
                -8_334_601_228_800 <= now.secs <= 8_210_266_876_799,
                0 <= timer.end.nanos < d,
                0 <= now.nanos < d,
        ;
        if delta >= 0 {
            assert(delta / d < 20_000_000_000_000) by (nonlinear_arith)
                requires 0 <= delta < 20_000_000_000_000 * d, d > 0;
        } else {
            assert((-delta) / d < 20_000_000_000_000) by (nonlinear_arith)
                requires 0 < -delta < 20_000_000_000_000 * d, d > 0;
        }
        lemma_trunc_div_nested(delta, d, 60);
        lemma_trunc_div_nested(delta, d, 3600);
    }
    let minutes = div_toward_zero(seconds, SECS_PER_MINUTE);
    let hours = div_toward_zero(seconds, SECS_PER_HOUR);
    StatusResponse { seconds, minutes, hours }
}

/// Why a status cannot be given.
#[derive(Clone, Copy, Debug, PartialEq, Eq, Structural)]
pub enum StatusError {
    /// No timer is filed under the identifier asked for.
    NotFound,
}

impl StatusError {
    /// The message shown to a client.
    pub fn message(&self) -> (r: &'static str)
        ensures
            r@ == "Timer does not exist"@,
    {
        proof {
            reveal_strlit("Timer does not exist");
        }
        "Timer does not exist"
    }
}

/// What a status request for `id` answers at `now`.
pub open spec fn lookup_spec(timers: Map<u128, Timer>, id: u128, now: Timestamp) -> Result<
    StatusResponse,
    StatusError,
> {
    if timers.contains_key(id) {
        Ok(status_spec(timers[id], now))
    } else {
        Err(StatusError::NotFound)
    }
}

/// The time left at `now` on the timer filed under `id`, or `NotFound`.
pub fn lookup_status(timers: &Registry, id: u128, now: Timestamp) -> (r: Result<
    StatusResponse,
    StatusError,
>)
    requires
        timers.wf(),
        now.wf(),
    ensures
        r == lookup_spec(timers@, id, now),
{
    match timers.get(id) {
        Some(t) => Ok(status_at(&t, now)),
        None => Err(StatusError::NotFound),
    }
}

/// Creates the timer named `id` that starts at `start` and runs for `duration_in_min`
/// minutes, and files it; where its end is not representable, nothing changes.
pub fn create_timer(timers: &mut Registry, id: u128, start: Timestamp, duration_in_min: u64) -> (r:
    Option<Timer>)
    requires
        old(timers).wf(),
        start.wf(),
    ensures
        final(timers).wf(),
        r == timer_for(id, start, duration_in_min),
        final(timers)@ == (match r {
            Some(t) => old(timers)@.insert(id, t),
            None => old(timers)@,
        }),
{
    let r = new_timer(id, start, duration_in_min);
    match r {
        Some(t) => {
            timers.insert(t);
        },
        None => {},
    }
    r
}

/// A timer created for `minutes` minutes ends exactly that many minutes after it starts,
/// whenever that end is representable.
pub proof fn lemma_timer_ends_minutes_after_start(id: u128, start: Timestamp, minutes: u64)
    requires
        start.wf(),
        start.secs + 60 * minutes <= MAX_SECS,
    ensures
        timer_for(id, start, minutes) matches Some(t) && t.id == id && t.start == start
            && t.end.total_nanos() - t.start.total_nanos() == minutes * nanos_per_minute(),
{
    let t = timer_for(id, start, minutes)->Some_0;
    assert(t.end.total_nanos() - t.start.total_nanos() == minutes * nanos_per_minute())
        by (nonlinear_arith)
        requires
            t.end.secs == start.secs + 60 * minutes,
            t.end.nanos == start.nanos,
            t.start == start,
            nanos_per_minute() == 60_000_000_000int,
            t.end.total_nanos() == t.end.secs * 1_000_000_000int + t.end.nanos,
            t.start.total_nanos() == t.start.secs * 1_000_000_000int + t.start.nanos,
    ;
}

/// Asked at the instant it starts, a timer of `minutes` minutes has `60 * minutes` seconds,
/// `minutes` minutes and `minutes / 60` hours left; asked up to two seconds later, its
/// seconds have dropped by at most two.
pub proof fn lemma_status_right_after_creation(
    id: u128,
    start: Timestamp,
    minutes: u64,
    now: Timestamp,
)
    requires
        start.wf(),
        now.wf(),
        start.secs + 60 * minutes <= MAX_SECS,
        start.total_nanos() <= now.total_nanos() <= start.total_nanos() + 2 * NANOS_PER_SEC,
    ensures
        timer_for(id, start, minutes) matches Some(t) && status_spec(t, start) == (
        StatusResponse {
            seconds: (60 * minutes) as i64,
            minutes: minutes as i64,
            hours: (minutes / 60) as i64,
        }),
        timer_for(id, start, minutes) matches Some(t) && 60 * minutes - 2 <= status_spec(
            t,
            now,
        ).seconds <= 60 * minutes,
{
    lemma_timer_ends_minutes_after_start(id, start, minutes);
    let t = timer_for(id, start, minutes)->Some_0;
    let d = NANOS_PER_SEC as int;
    let m = minutes as int;
    assert(remaining_nanos(t, start) == m * nanos_per_minute());
    assert((m * nanos_per_minute()) / d == 60 * m) by {
        lemma_fundamental_div_mod_converse(m * nanos_per_minute(), d, 60 * m, 0);
    }
    assert((m * nanos_per_minute()) / nanos_per_minute() == m) by {
        lemma_fundamental_div_mod_converse(m * nanos_per_minute(), nanos_per_minute(), m, 0);
    }
    assert((m * nanos_per_minute()) / nanos_per_hour() == m / 60) by {
        lemma_fundamental_div_mod_converse(m, 60, m / 60, m % 60);
        assert(m * nanos_per_minute() == (m / 60) * nanos_per_hour() + (m % 60)
            * nanos_per_minute()) by (nonlinear_arith)
            requires
                m == (m / 60) * 60 + m % 60,
                nanos_per_minute() == 60_000_000_000int,
                nanos_per_hour() == 3_600_000_000_000int,
        ;
        assert(0 <= (m % 60) * nanos_per_minute() < nanos_per_hour()) by (nonlinear_arith)
            requires
                0 <= m % 60 < 60,
                nanos_per_minute() == 60_000_000_000int,
                nanos_per_hour() == 3_600_000_000_000int,
        ;
        lemma_fundamental_div_mod_converse(
            m * nanos_per_minute(),
            nanos_per_hour(),
            m / 60,
            (m % 60) * nanos_per_minute(),
        );
    }
    let rem = remaining_nanos(t, now);
    let lo = 60 * m - 2;
    assert(rem == m * nanos_per_minute() - (now.total_nanos() - start.total_nanos()));
    assert(lo * d <= rem <= 60 * m * d) by (nonlinear_arith)
        requires
            rem == m * nanos_per_minute() - (now.total_nanos() - start.total_nanos()),
            0 <= now.total_nanos() - start.total_nanos() <= 2 * d,
            nanos_per_minute() == 60 * d,
            lo == 60 * m - 2,
    ;
    if rem >= 0 {
        assert(rem / d <= 60 * m) by (nonlinear_arith)
            requires rem <= 60 * m * d, d > 0;
        assert(lo <= rem / d) by (nonlinear_arith)
            requires lo * d <= rem, d > 0;
    } else {
        assert(m == 0 && lo == -2) by (nonlinear_arith)
            requires rem < 0, rem == m * 60 * d - (now.total_nanos() - start.total_nanos()),
                now.total_nanos() - start.total_nanos() <= 2 * d, d == 1_000_000_000, m >= 0,
                lo == 60 * m - 2;
        assert((-rem) / d <= 2) by (nonlinear_arith)
            requires 0 < -rem <= 2 * d, d > 0;
    }
}

/// Once a timer's end has passed, its status is still given, and no count of time left
/// is positive; each count is negative once a whole unit of it has passed.
pub proof fn lemma_elapsed_timer_counts_down_below_zero(
    timers: Map<u128, Timer>,
    id: u128,
    now: Timestamp,
)
    requires
        timers.contains_key(id),
        timers[id].wf(),
        now.wf(),
        timers[id].end.total_nanos() <= now.total_nanos(),
    ensures
        lookup_spec(timers, id, now) matches Ok(s) && s.seconds <= 0 && s.minutes <= 0
            && s.hours <= 0,
        now.total_nanos() >= timers[id].end.total_nanos() + NANOS_PER_SEC ==> status_spec(
            timers[id],
            now,
        ).seconds < 0,
        now.total_nanos() >= timers[id].end.total_nanos() + nanos_per_minute() ==> status_spec(
            timers[id],
            now,
        ).minutes < 0,
        now.total_nanos() >= timers[id].end.total_nanos() + nanos_per_hour() ==> status_spec(
            timers[id],
            now,
        ).hours < 0,
{
    let t = timers[id];
    let past = -remaining_nanos(t, now);
    assert(past >= 0);
    assert forall|u: int| u > 0 implies #[trigger] trunc_div(-past, u) <= 0 && (past >= u
        ==> trunc_div(-past, u) < 0) by {
        if past > 0 {
            assert(past / u >= 0) by (nonlinear_arith)
                requires past > 0, u > 0;
            if past >= u {
                assert(past / u >= 1) by (nonlinear_arith)
                    requires past >= u, u > 0;
            }
        } else {
            assert(trunc_div(-past, u) == 0int / u);
        }
    }
    assert(trunc_div(-past, NANOS_PER_SEC as int) <= 0);
    assert(trunc_div(-past, nanos_per_minute()) <= 0);
    assert(trunc_div(-past, nanos_per_hour()) <= 0);
}

} // verus!
