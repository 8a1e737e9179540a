//! When the projects are read again.
use std::time::Duration;

use vstd::prelude::*;

use crate::outside::{self, nanos_of_duration, write_rfc3339_micros};
use crate::provider::agent::{Agent, AgentProvider};

verus! {

pub const NANOS_PER_MILLI: u128 = 1_000_000;

pub const NANOS_PER_SEC: u128 = 1_000_000_000;

/// The first multiple of `step` that is not below `n`.
pub open spec fn round_up(n: int, step: int) -> int {
    if n % step == 0 {
        n
    } else {
        n - n % step + step
    }
}

/// How many whole milliseconds a duration has.
pub open spec fn whole_millis(duration: Duration) -> int {
    outside::duration_nanos(duration) / 1_000_000
}

/// The next moment, in milliseconds since 1970, that is a multiple of the interval's whole
/// milliseconds. It is kept in sixty-four bits.
pub open spec fn first_tick(now_nanos: u128, target_duration: Duration) -> int {
    round_up(now_nanos as int / 1_000_000, whole_millis(target_duration)) % 0x1_0000_0000_0000_0000
}

/// How long it is from `now_nanos` to a moment in milliseconds, in nanoseconds; nothing where the
/// moment has passed.
pub open spec fn time_until(now_nanos: u128, millis: int) -> int {
    if millis * 1_000_000 >= now_nanos {
        millis * 1_000_000 - now_nanos
    } else {
        0
    }
}

/// The next moment that is a multiple of the interval's whole milliseconds, in milliseconds since
/// 1970, and how long it is until then, in nanoseconds. `now_nanos` counts from 1970.
pub fn rounded_instant(now_nanos: u128, target_duration: Duration) -> (r: (u64, u128))
    requires
        whole_millis(target_duration) > 0,
    ensures
        r.0 == first_tick(now_nanos, target_duration),
        r.1 == time_until(now_nanos, r.0 as int),
{
    let millis: u128 = now_nanos / NANOS_PER_MILLI;
    let step: u128 = nanos_of_duration(target_duration) / NANOS_PER_MILLI;
    let over: u128 = millis % step;
    proof {
        vstd::arithmetic::div_mod::lemma_mod_decreases(millis as nat, step as nat);
    }
    let rounded: u128 = if over > 0 {
        millis - over + step
    } else {
        millis
    };
    let tick: u64 = (rounded % 0x1_0000_0000_0000_0000) as u64;
    let tick_nanos: u128 = tick as u128 * NANOS_PER_MILLI;
    let delay: u128 = if tick_nanos >= now_nanos {
        tick_nanos - now_nanos
    } else {
        0
    };
    (tick, delay)
}

/// A moment in UTC by RFC 3339, to the microsecond. Nothing where the calendar does not reach.
pub fn format_system_time(secs: i64, nanos: u32) -> (r: Option<String>)
    ensures
        match r {
            Some(text) => outside::rfc3339_micros(secs as int, nanos as int) == Some(text@),
            None => outside::rfc3339_micros(secs as int, nanos as int) is None,
        },
{
    write_rfc3339_micros(secs, nanos)
}

/// When an agent reads its projects again.
#[derive(Debug)]
pub struct RefreshSchedule {
    /// The first tick, in milliseconds since 1970. Nothing is read at it.
    pub first_tick: u64,
    /// How long it is until the first tick, in nanoseconds.
    pub delay_nanos: u128,
    /// The time between two ticks.
    pub interval: Duration,
    /// The moment of the first refresh, for people to read.
    pub started: Option<String>,
}

/// The moment of the first refresh in seconds since 1970, and the nanoseconds beyond them: one
/// interval after the first tick.
pub open spec fn first_refresh(first_tick: int, interval: Duration) -> (int, int) {
    let nanos = first_tick * 1_000_000 + outside::duration_nanos(interval);
    (nanos / 1_000_000_000, nanos % 1_000_000_000)
}

/// Whether `text` is how a moment is written: nothing where the calendar does not reach.
pub open spec fn is_written(moment: (int, int), text: Option<String>) -> bool {
    match text {
        Some(text) => moment.0 <= i64::MAX && outside::rfc3339_micros(moment.0, moment.1) == Some(
            text@,
        ),
        None => moment.0 > i64::MAX || outside::rfc3339_micros(moment.0, moment.1) is None,
    }
}

/// Whether `schedule` says when an agent reads its projects again: not at all where they are on the
/// local disk.
pub open spec fn is_refresh_schedule(
    agent: Agent,
    now_nanos: u128,
    schedule: Option<RefreshSchedule>,
) -> bool {
    match schedule {
        Some(schedule) => {
            let tick = first_tick(now_nanos, agent.config.poll_interval);
            &&& !(agent.provider is Zip || agent.provider is Filesystem)
            &&& schedule.first_tick == tick
            &&& schedule.delay_nanos == time_until(now_nanos, tick)
            &&& schedule.interval == agent.config.poll_interval
            &&& is_written(first_refresh(tick, agent.config.poll_interval), schedule.started)
        },
        None => agent.provider is Zip || agent.provider is Filesystem,
    }
}

impl Agent {
    /// When the agent reads its projects again, if at all. `now_nanos` counts from 1970.
    pub fn register_refresh_data(&self, now_nanos: u128) -> (r: Option<RefreshSchedule>)
        requires
            self.provider is Zip || self.provider is Filesystem || whole_millis(
                self.config.poll_interval,
            ) > 0,
        ensures
            is_refresh_schedule(*self, now_nanos, r),
    {
        if !self.provider.should_refresh() {
            return None;
        }
        let interval: Duration = self.config.poll_interval;
        let (first_tick, delay_nanos): (u64, u128) = rounded_instant(now_nanos, interval);
        let start: u128 = first_tick as u128 * NANOS_PER_MILLI + nanos_of_duration(interval);
        let secs: u128 = start / NANOS_PER_SEC;
        let nanos: u32 = (start % NANOS_PER_SEC) as u32;
        let started: Option<String> = if secs <= i64::MAX as u128 {
            format_system_time(secs as i64, nanos)
        } else {
            None
        };
        Some(RefreshSchedule { first_tick, delay_nanos, interval, started })
    }
}

/// A refresh job that has begun to tick.
#[derive(Debug)]
pub struct RefreshJob {
    pub ticked: bool,
}

/// Whether a job goes from `before` to `after` at a tick, and reads the projects if `reads` says so.
pub open spec fn ticks(before: RefreshJob, after: RefreshJob, reads: bool) -> bool {
    after.ticked && reads == before.ticked
}

impl RefreshJob {
    /// A job before its first tick.
    pub fn new() -> (r: Self)
        ensures
            !r.ticked,
    {
        RefreshJob { ticked: false }
    }

    /// Whether the projects are read at this tick: at every one but the first.
    pub fn tick(&mut self) -> (r: bool)
        ensures
            final(self).ticked,
            r == old(self).ticked,
            ticks(*old(self), *final(self), r),
    {
        let r: bool = self.ticked;
        self.ticked = true;
        r
    }
}

/// The first tick is a multiple of the interval, less than an interval ahead of the current
/// millisecond and not behind it, and the wait for it is shorter than the interval.
pub proof fn law_first_tick_is_next_multiple(now_nanos: u128, target_duration: Duration)
    requires
        whole_millis(target_duration) > 0,
        round_up(now_nanos as int / 1_000_000, whole_millis(target_duration)) <= u64::MAX,
    ensures
        first_tick(now_nanos, target_duration) % whole_millis(target_duration) == 0,
        now_nanos as int / 1_000_000 <= first_tick(now_nanos, target_duration),
        first_tick(now_nanos, target_duration) < now_nanos as int / 1_000_000 + whole_millis(
            target_duration,
        ),
        time_until(now_nanos, first_tick(now_nanos, target_duration)) < whole_millis(
            target_duration,
        ) * 1_000_000,
{
    let n = now_nanos as int / 1_000_000;
    let step = whole_millis(target_duration);
    vstd::arithmetic::div_mod::lemma_fundamental_div_mod(n, step);
    if n % step != 0 {
        let q = n / step;
        assert(n - n % step + step == (q + 1) * step) by (nonlinear_arith)
            requires
                n == step * q + n % step,
        ;
        vstd::arithmetic::div_mod::lemma_mod_multiples_basic(q + 1, step);
    }
}

/// At any moment and for any interval of a millisecond or more: the first tick is the one multiple of
/// the interval's whole milliseconds that is not behind the current millisecond and less than an
/// interval ahead of it, with what does not fit into sixty-four bits cut off.
pub proof fn law_first_tick_of_every_moment(now_nanos: u128, target_duration: Duration)
    requires
        outside::duration_nanos(target_duration) >= 1_000_000,
    ensures
        ({
            let now = now_nanos as int / 1_000_000;
            let step = outside::duration_nanos(target_duration) / 1_000_000;
            exists|q: int|
                {
                    &&& now <= #[trigger] (q * step) < now + step
                    &&& first_tick(now_nanos, target_duration) == (q * step)
                        % 0x1_0000_0000_0000_0000
                }
        }),
{
    let n = now_nanos as int / 1_000_000;
    let step = outside::duration_nanos(target_duration) / 1_000_000;
    let q = n / step;
    vstd::arithmetic::div_mod::lemma_fundamental_div_mod(n, step);
    vstd::arithmetic::mul::lemma_mul_is_commutative(step, q);
    if n % step == 0 {
        assert(n <= q * step < n + step);
        assert(first_tick(now_nanos, target_duration) == (q * step) % 0x1_0000_0000_0000_0000);
    } else {
        assert((q + 1) * step == q * step + step) by (nonlinear_arith);
        assert(n <= (q + 1) * step < n + step);
        assert(first_tick(now_nanos, target_duration) == ((q + 1) * step)
            % 0x1_0000_0000_0000_0000);
    }
}

/// Waiting as long as is said ends at the moment that is waited for; a moment that has passed is not
/// waited for.
pub proof fn law_wait_ends_at_the_moment(now_nanos: u128, millis: int)
    ensures
        millis * 1_000_000 >= now_nanos ==> now_nanos + time_until(now_nanos, millis) == millis
            * 1_000_000,
        millis * 1_000_000 < now_nanos ==> time_until(now_nanos, millis) == 0,
{
}

/// The first refresh is one interval after the first tick, to the nanosecond.
pub proof fn law_first_refresh_is_an_interval_later(tick: int, interval: Duration)
    ensures
        ({
            let (secs, nanos) = first_refresh(tick, interval);
            &&& 0 <= nanos < 1_000_000_000
            &&& secs * 1_000_000_000 + nanos == tick * 1_000_000 + outside::duration_nanos(
                interval,
            )
        }),
{
}

/// An agent has a schedule exactly if its projects come from S3, Azure, GCS or a database. Its ticks
/// are the configured interval apart, the wait ends at the first of them, and what is announced is
/// the moment one interval after it, where a calendar reaches it.
pub proof fn law_schedule_of_every_agent(
    agent: Agent,
    now_nanos: u128,
    schedule: Option<RefreshSchedule>,
)
    requires
        is_refresh_schedule(agent, now_nanos, schedule),
    ensures
        schedule is Some <==> agent.provider is S3 || agent.provider is AzureStorage
            || agent.provider is GCS || agent.provider is Postgres,
        schedule matches Some(s) ==> {
            let start = s.first_tick * 1_000_000 + outside::duration_nanos(
                agent.config.poll_interval,
            );
            &&& s.interval == agent.config.poll_interval
            &&& s.first_tick == first_tick(now_nanos, agent.config.poll_interval)
            &&& s.first_tick * 1_000_000 >= now_nanos ==> now_nanos + s.delay_nanos == s.first_tick
                * 1_000_000
            &&& s.first_tick * 1_000_000 < now_nanos ==> s.delay_nanos == 0
            &&& s.started matches Some(text) ==> outside::rfc3339_micros(
                start / 1_000_000_000,
                start % 1_000_000_000,
            ) == Some(text@)
            &&& s.started is None ==> start / 1_000_000_000 > i64::MAX || outside::rfc3339_micros(
                start / 1_000_000_000,
                start % 1_000_000_000,
            ) is None
        },
{
    match agent.provider {
        AgentProvider::Zip => {},
        AgentProvider::Filesystem => {},
        AgentProvider::S3 => {},
        AgentProvider::AzureStorage => {},
        AgentProvider::GCS => {},
        AgentProvider::Postgres => {},
    }
}

/// A job that has not ticked yet reads nothing at its next tick, and reads at each one after it.
pub proof fn law_job_reads_from_the_second_tick_on(
    before: RefreshJob,
    between: RefreshJob,
    after: RefreshJob,
    first: bool,
    second: bool,
)
    requires
        !before.ticked,
        ticks(before, between, first),
        ticks(between, after, second),
    ensures
        !first,
        second,
        forall|later: RefreshJob, reads: bool| #[trigger] ticks(after, later, reads) ==> reads
            && later.ticked,
{
}

} // verus!
