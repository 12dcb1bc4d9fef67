//! The simulated physical clock of a benchmark server: its state and the
//! steps that read it. The simulated time follows the true time with a
//! drift and an offset, is clamped into `true time ± sync uncertainty`,
//! never goes back, and is resynchronised every sync period.

use vstd::prelude::*;
use rand::rngs::StdRng;
use rand::{Rng, SeedableRng};
use crate::arith::{clamp_i64, max_int, max_i64, saturating_add, saturating_mul, saturating_sub};
use crate::util::{since_unix_epoch, system_now, NodeId};

verus! {

#[verifier::external_type_specification]
#[verifier::external_body]
pub struct ExStdRng(StdRng);

/// The generator that `rand` seeds from `seed`: `seed_from_u64` expands the
/// seed deterministically, so the same seed gives the same generator.
pub uninterp spec fn spec_seeded_rng(seed: u64) -> StdRng;

/// The generator that `rand` seeds from a `u64`.
///
/// Calls `rand::SeedableRng::seed_from_u64` for `rand::rngs::StdRng`, a
/// function of the seed alone; the generator is opaque here, so it is named,
/// not described.
#[verifier::external_body]
fn seeded_rng(seed: u64) -> (r: StdRng)
    ensures
        r == spec_seeded_rng(seed),
{
    StdRng::seed_from_u64(seed)
}

/// A seed drawn from the thread-local generator of `rand`.
///
/// Calls `rand::thread_rng().gen::<u64>()`; the result is random, so nothing
/// is stated of it.
#[verifier::external_body]
fn random_seed() -> u64 {
    rand::thread_rng().gen::<u64>()
}

/// A value drawn from `low..=high`.
///
/// Calls `rand::Rng::gen_range` with the inclusive range; the result is
/// random, and `rand` documents only that it lies in the range (it panics on
/// an empty range, which `requires` rules out).
#[verifier::external_body]
fn gen_range_inclusive(rng: &mut StdRng, low: i64, high: i64) -> (r: i64)
    requires
        low <= high,
    ensures
        low <= r <= high,
{
    rng.gen_range(low..=high)
}

/// The whole seconds of a duration, as `Duration::as_secs` gives them.
pub uninterp spec fn spec_duration_secs(d: std::time::Duration) -> u64;

/// The fractional part of a duration in whole microseconds, as
/// `Duration::subsec_micros` gives it.
pub uninterp spec fn spec_duration_subsec_micros(d: std::time::Duration) -> u32;

/// Whole seconds of a duration.
///
/// Calls `std::time::Duration::as_secs`, a function of the duration alone;
/// the duration is opaque here, so the result is named, not described.
#[verifier::external_body]
fn duration_secs(d: &std::time::Duration) -> (r: u64)
    ensures
        r == spec_duration_secs(*d),
{
    d.as_secs()
}

/// The fractional part of a duration, in whole microseconds.
///
/// Calls `std::time::Duration::subsec_micros`, a function of the duration
/// alone, which std documents to be less than one million.
#[verifier::external_body]
fn duration_subsec_micros(d: &std::time::Duration) -> (r: u32)
    ensures
        r == spec_duration_subsec_micros(*d),
        r < 1_000_000,
{
    d.subsec_micros()
}

/// The whole microseconds of a duration.
///
/// Calls `std::time::Duration::as_micros`; the duration is opaque here, so
/// nothing is stated of the result.
#[verifier::external_body]
fn duration_as_micros(d: &std::time::Duration) -> u128 {
    d.as_micros()
}

/// Configuration of the simulated clock.
#[derive(Clone, Debug)]
pub struct ClockConfig {
    /// The node whose clock this is.
    pub node_id: NodeId,
    /// Drift rate in microseconds per simulated second.
    pub drift_rate_us_per_sec: i64,
    /// Synchronization uncertainty bound (±ε) in microseconds.
    pub sync_uncertainty_us: i64,
    /// Synchronization period in simulated microseconds.
    pub sync_period_us: i64,
    /// Optional RNG seed for deterministic simulation.
    pub seed: Option<u64>,
}

impl ClockConfig {
    /// The configuration with every field zero and no seed.
    pub fn default() -> (c: Self)
        ensures
            c.node_id == 0,
            c.drift_rate_us_per_sec == 0,
            c.sync_uncertainty_us == 0,
            c.sync_period_us == 0,
            c.seed is None,
    {
        ClockConfig {
            node_id: 0,
            drift_rate_us_per_sec: 0,
            sync_uncertainty_us: 0,
            sync_period_us: 0,
            seed: None,
        }
    }

    /// The conditions that a clock asserts of its configuration.
    pub open spec fn is_valid(&self) -> bool {
        self.sync_uncertainty_us >= 0 && self.sync_period_us > 0
    }

    /// The bound of the allowed range around the true time.
    pub open spec fn bound(&self) -> int {
        max_int(self.sync_uncertainty_us as int, 0)
    }
}

/// The mutable state of a simulated clock.
#[derive(Debug)]
pub struct ClockState {
    /// Offset of the simulated time from the true time.
    pub base_sim_offset_us: i64,
    /// The last simulated time returned; readings never go below it.
    pub last_sim_us: i64,
    /// Next resync deadline in true time.
    pub next_resync_sim_us: i64,
    /// Generator of the uncertainty reported with a reading.
    pub rng: StdRng,
    /// The true time of the last resync.
    pub last_sync_true_time: i64,
    /// The true time of the last reading.
    pub last_true_time: i64,
    /// The simulated time of the last reading.
    pub last_sim_time: i64,
}

/// Truncating division of `x` by a positive `d`, as Rust divides.
pub open spec fn div_trunc(x: int, d: int) -> int {
    if x >= 0 {
        x / d
    } else {
        -((-x) / d)
    }
}

/// The absolute value of `v`, saturating at `i64::MAX`.
pub open spec fn abs_sat(v: i64) -> i64 {
    if v < 0 {
        clamp_i64(-v)
    } else {
        v
    }
}

/// The absolute value of `v`, saturating at `i64::MAX`.
pub fn abs_i64(v: i64) -> (r: i64)
    ensures
        r == abs_sat(v),
{
    if v < 0 {
        if v == i64::MIN {
            i64::MAX
        } else {
            -v
        }
    } else {
        v
    }
}

/// Microseconds of `secs` seconds and `subsec_micros` microseconds,
/// saturating at `i64::MAX`.
pub fn micros_from_parts(secs: u64, subsec_micros: u32) -> (r: i64)
    ensures
        r == clamp_i64(clamp_i64(secs * 1_000_000) + subsec_micros),
{
    let s: i64 = if secs > 9223372036854775807u64 {
        i64::MAX
    } else {
        secs as i64
    };
    let m = saturating_mul(s, 1_000_000);
    proof {
        if secs > i64::MAX {
            assert(secs * 1_000_000 > i64::MAX);
            assert(s * 1_000_000 > i64::MAX);
        }
    }
    saturating_add(m, subsec_micros as i64)
}

/// The duration in whole microseconds, saturating at `i64::MAX`.
pub fn duration_to_us(d: std::time::Duration) -> (r: i64)
    ensures
        r == clamp_i64(clamp_i64(spec_duration_secs(d) * 1_000_000) + spec_duration_subsec_micros(d)),
        r >= 0,
{
    let secs = duration_secs(&d);
    let micros = duration_subsec_micros(&d);
    let r = micros_from_parts(secs, micros);
    assert(clamp_i64(secs * 1_000_000) >= 0) by (nonlinear_arith)
        requires
            secs >= 0,
    ;
    r
}

/// Microseconds since the Unix epoch as an `i64`, saturating at `i64::MAX`.
pub fn micros_to_i64(us: u128) -> (r: i64)
    ensures
        r == (if us > i64::MAX { i64::MAX as int } else { us as int }),
{
    if us > 9223372036854775807u128 {
        i64::MAX
    } else {
        us as i64
    }
}

/// Microseconds since the Unix epoch by the system clock, saturating at
/// `i64::MAX`, or 0 where the system clock stands before the epoch.
pub fn system_time_us() -> (r: i64)
    ensures
        r >= 0,
{
    let now = system_now();
    match since_unix_epoch(&now) {
        Ok(d) => micros_to_i64(duration_as_micros(&d)),
        Err(_) => 0,
    }
}

/// The true time: the epoch time of the start plus the elapsed time, saturating.
pub fn compute_true_time(base_epoch_us: i64, real_elapsed_us: i64) -> (r: i64)
    ensures
        r == clamp_i64(base_epoch_us + real_elapsed_us),
{
    saturating_add(base_epoch_us, real_elapsed_us)
}

/// The drift accumulated over `elapsed` microseconds at `rate` microseconds
/// per second: the saturated product divided by one million, truncating.
pub open spec fn drift_of(elapsed: i64, rate: i64) -> int {
    div_trunc(clamp_i64(elapsed * rate) as int, 1_000_000)
}

/// The simulated time at `true_time`: the true time plus the offset plus the
/// drift since the last sync, each step saturating.
pub open spec fn sim_time_of(cfg: ClockConfig, true_time: i64, base_sim_offset_us: i64, last_sync_true_time: i64) -> i64 {
    let elapsed = clamp_i64(true_time - last_sync_true_time);
    let drift = drift_of(elapsed, cfg.drift_rate_us_per_sec);
    clamp_i64(clamp_i64(true_time + base_sim_offset_us) + drift)
}

/// The range around `true_time` that readings are clamped into.
pub open spec fn allowed_range_of(cfg: ClockConfig, true_time: i64) -> (i64, i64) {
    (clamp_i64(true_time - cfg.bound()), clamp_i64(true_time + cfg.bound()))
}

/// The simulated time at `true_time`, as `sim_time_of` defines it.
pub fn compute_sim_time(cfg: &ClockConfig, true_time: i64, base_sim_offset_us: i64, last_sync_true_time: i64) -> (r: i64)
    ensures
        r == sim_time_of(*cfg, true_time, base_sim_offset_us, last_sync_true_time),
{
    let sim_elapsed_us = saturating_sub(true_time, last_sync_true_time);
    let drift_us = saturating_mul(sim_elapsed_us, cfg.drift_rate_us_per_sec) / 1_000_000;
    saturating_add(saturating_add(true_time, base_sim_offset_us), drift_us)
}

/// The range `true_time ± bound`, each end saturating.
pub fn allowed_range(cfg: &ClockConfig, true_time: i64) -> (r: (i64, i64))
    ensures
        r == allowed_range_of(*cfg, true_time),
        r.0 <= true_time <= r.1,
{
    let bound = max_i64(cfg.sync_uncertainty_us, 0);
    let min_allowed = saturating_sub(true_time, bound);
    let max_allowed = saturating_add(true_time, bound);
    (min_allowed, max_allowed)
}

/// The reading that `sim_time` clamps to: raised to the last reading and
/// the lower end of the range where it lies below both, otherwise lowered to
/// the upper end where it lies above it.
pub open spec fn clamped_of(sim_time: i64, min_allowed: i64, max_allowed: i64, last_sim_us: i64) -> i64 {
    let lower = max_int(last_sim_us as int, min_allowed as int);
    if sim_time < lower {
        lower as i64
    } else if sim_time > max_allowed {
        max_allowed
    } else {
        sim_time
    }
}

/// The offset adjustment of a clamp stays within `i64`.
pub open spec fn clamp_fits(sim_time: i64, min_allowed: i64, max_allowed: i64, last_sim_us: i64) -> bool {
    i64::MIN <= clamped_of(sim_time, min_allowed, max_allowed, last_sim_us) - sim_time <= i64::MAX
}

/// Clamps `sim_time` and, where it moved, shifts the offset by the same
/// amount (saturating) so that later readings stay consistent.
pub fn clamp_sim_time(sim_time: i64, min_allowed: i64, max_allowed: i64, state: &mut ClockState) -> (r: i64)
    requires
        clamp_fits(sim_time, min_allowed, max_allowed, old(state).last_sim_us),
    ensures
        r == clamped_of(sim_time, min_allowed, max_allowed, old(state).last_sim_us),
        r != sim_time ==> final(state).base_sim_offset_us == clamp_i64(old(state).base_sim_offset_us + (r - sim_time)),
        r == sim_time ==> final(state).base_sim_offset_us == old(state).base_sim_offset_us,
        final(state).last_sim_us == old(state).last_sim_us,
        final(state).next_resync_sim_us == old(state).next_resync_sim_us,
        final(state).last_sync_true_time == old(state).last_sync_true_time,
        final(state).last_true_time == old(state).last_true_time,
        final(state).rng == old(state).rng,
        final(state).last_sim_time == old(state).last_sim_time,
{
    let lower = max_i64(state.last_sim_us, min_allowed);
    let clamped = if sim_time < lower {
        lower
    } else if sim_time > max_allowed {
        max_allowed
    } else {
        sim_time
    };
    if clamped != sim_time {
        state.base_sim_offset_us = saturating_add(state.base_sim_offset_us, clamped - sim_time);
    }
    clamped
}

/// The number of whole sync periods that takes a resync scheduled at
/// `next` past `true_time`, for `next <= true_time`: the least `j >= 1` with
/// `next + j * period > true_time`.
pub open spec fn periods_past(next: int, true_time: int, period: int) -> int {
    (true_time - next) / period + 1
}

/// Resynchronises the clock at `true_time`: the offset becomes such that the
/// simulated time equals the true time, the drift restarts from `true_time`,
/// and the next resync moves, by the fewest whole periods, past `true_time`
/// (saturating at `i64::MAX`).
pub fn resync_at(cfg: &ClockConfig, true_time: i64, state: &mut ClockState)
    requires
        true_time < i64::MAX,
    ensures
        (cfg.sync_period_us > 0 && old(state).next_resync_sim_us <= true_time) ==> {
            let k = periods_past(old(state).next_resync_sim_us as int, true_time as int, cfg.sync_period_us as int);
            &&& k >= 1
            &&& old(state).next_resync_sim_us + (k - 1) * cfg.sync_period_us <= true_time
            &&& old(state).next_resync_sim_us + k * cfg.sync_period_us > true_time
            &&& final(state).next_resync_sim_us == clamp_i64(old(state).next_resync_sim_us + k * cfg.sync_period_us)
        },
        final(state).rng == old(state).rng,
        final(state).base_sim_offset_us == 0,
        final(state).last_sync_true_time == true_time,
        cfg.sync_period_us > 0 ==> {
            &&& final(state).next_resync_sim_us > true_time
            &&& (old(state).next_resync_sim_us > true_time ==> final(state).next_resync_sim_us
                == old(state).next_resync_sim_us)
        },
        cfg.sync_period_us <= 0 ==> final(state).next_resync_sim_us == old(state).next_resync_sim_us,
        (cfg.sync_period_us > 0 && old(state).next_resync_sim_us == true_time) ==> final(state).next_resync_sim_us
            == clamp_i64(true_time + cfg.sync_period_us),
        final(state).last_sim_us == old(state).last_sim_us,
        final(state).last_true_time == old(state).last_true_time,
        final(state).last_sim_time == old(state).last_sim_time,
{
    let (min_allowed, max_allowed) = allowed_range(cfg, true_time);
    let new_error: i64 = 0;
    let target_time = saturating_add(true_time, new_error);
    let clamped_target = if target_time < min_allowed {
        min_allowed
    } else if target_time > max_allowed {
        max_allowed
    } else {
        target_time
    };
    state.base_sim_offset_us = saturating_sub(clamped_target, true_time);
    state.last_sync_true_time = true_time;
    let period = cfg.sync_period_us;
    let mut next = state.next_resync_sim_us;
    let ghost n0 = next;
    let ghost mut i: int = 0;
    if period > 0 {
        while true_time >= next
            invariant
                period > 0,
                true_time < i64::MAX,
                n0 > true_time ==> next == n0,
                next == n0 || next > n0,
                (n0 == true_time && next != n0) ==> next == clamp_i64(true_time + period),
                i >= 0,
                i == 0 ==> next == n0,
                next < i64::MAX ==> next == n0 + i * period,
                next == i64::MAX ==> n0 + i * period >= i64::MAX,
                i > 0 ==> n0 + (i - 1) * period <= true_time,
            decreases max_int(true_time - next + 1, 0),
        {
            let prev = next;
            next = saturating_add(next, period);
            assert(next > prev);
            proof {
                assert((i + 1) * period == i * period + period) by (nonlinear_arith);
                i = i + 1;
            }
        }
        proof {
            if n0 <= true_time {
                let p = period as int;
                assert(i >= 1);
                assert(n0 + i * p > true_time);
                assert(i * p == (i - 1) * p + p) by (nonlinear_arith);
                vstd::arithmetic::div_mod::lemma_fundamental_div_mod_converse(
                    true_time - n0,
                    p,
                    i - 1,
                    true_time - n0 - (i - 1) * p,
                );
                assert(periods_past(n0 as int, true_time as int, p) == i);
            }
        }
    }
    state.next_resync_sim_us = next;
}

/// Performs every resync that is due at `true_time`, each at its scheduled
/// time, in order.
pub fn catch_up(cfg: &ClockConfig, true_time: i64, state: &mut ClockState)
    requires
        cfg.sync_period_us > 0,
        true_time < i64::MAX,
    ensures
        final(state).next_resync_sim_us > true_time,
        old(state).next_resync_sim_us > true_time ==> {
            &&& final(state).base_sim_offset_us == old(state).base_sim_offset_us
            &&& final(state).last_sync_true_time == old(state).last_sync_true_time
            &&& final(state).next_resync_sim_us == old(state).next_resync_sim_us
        },
        old(state).next_resync_sim_us <= true_time ==> {
            &&& final(state).base_sim_offset_us == 0
            &&& old(state).next_resync_sim_us <= final(state).last_sync_true_time <= true_time
            &&& (final(state).last_sync_true_time - old(state).next_resync_sim_us) % (cfg.sync_period_us as int) == 0
            &&& final(state).last_sync_true_time + cfg.sync_period_us > true_time
            &&& final(state).next_resync_sim_us == clamp_i64(final(state).last_sync_true_time + cfg.sync_period_us)
        },
        final(state).last_sim_us == old(state).last_sim_us,
        final(state).last_true_time == old(state).last_true_time,
        final(state).rng == old(state).rng,
        final(state).last_sim_time == old(state).last_sim_time,
{
    proof {
        vstd::arithmetic::div_mod::lemma_small_mod(0nat, cfg.sync_period_us as nat);
    }
    while true_time >= state.next_resync_sim_us
        invariant
            cfg.sync_period_us > 0,
            true_time < i64::MAX,
            state.last_sim_us == old(state).last_sim_us,
            state.last_true_time == old(state).last_true_time,
            state.last_sim_time == old(state).last_sim_time,
            state.rng == old(state).rng,
            state.next_resync_sim_us >= old(state).next_resync_sim_us,
            state.next_resync_sim_us == old(state).next_resync_sim_us ==> {
                &&& state.base_sim_offset_us == old(state).base_sim_offset_us
                &&& state.last_sync_true_time == old(state).last_sync_true_time
            },
            state.next_resync_sim_us != old(state).next_resync_sim_us ==> {
                &&& state.base_sim_offset_us == 0
                &&& old(state).next_resync_sim_us <= state.last_sync_true_time <= true_time
                &&& (state.last_sync_true_time - old(state).next_resync_sim_us) % (cfg.sync_period_us as int) == 0
                &&& state.next_resync_sim_us == clamp_i64(state.last_sync_true_time + cfg.sync_period_us)
            },
            state.next_resync_sim_us < i64::MAX ==> (state.next_resync_sim_us - old(state).next_resync_sim_us) % (cfg.sync_period_us as int) == 0,
        decreases max_int(true_time - state.next_resync_sim_us + 1, 0),
    {
        let scheduled_time = state.next_resync_sim_us;
        resync_at(cfg, scheduled_time, state);
        proof {
            let p = cfg.sync_period_us as int;
            let n0 = old(state).next_resync_sim_us as int;
            if state.next_resync_sim_us < i64::MAX {
                assert(state.next_resync_sim_us == scheduled_time + p);
                vstd::arithmetic::div_mod::lemma_mod_add_multiples_vanish(scheduled_time - n0, p);
                assert(scheduled_time + p - n0 == p + (scheduled_time - n0));
            }
        }
    }
}

/// Whether the clock is consistent: its last reading lies at or below the
/// upper end of the range around the true time of that reading.
pub open spec fn is_consistent(cfg: ClockConfig, state: ClockState) -> bool {
    state.last_sim_us <= allowed_range_of(cfg, state.last_true_time).1
}

/// A reading of `t` at `true_time` took the clock from `before` to `after`:
/// it is recorded as the last reading, and where the clock was consistent
/// and the true time has not gone back, it lies in `true_time ± bound`, at
/// or above the previous reading, and the clock stays consistent.
pub open spec fn reading_step(cfg: ClockConfig, before: ClockState, after: ClockState, true_time: i64, t: i64) -> bool {
    &&& after.last_sim_us == t
    &&& after.last_true_time == true_time
    &&& (is_consistent(cfg, before) && true_time >= before.last_true_time) ==> {
        &&& allowed_range_of(cfg, true_time).0 <= t <= allowed_range_of(cfg, true_time).1
        &&& t >= before.last_sim_us
        &&& is_consistent(cfg, after)
    }
}

/// Between two readings the clock keeps its last reading and its true time
/// (failed reads and uncertainty draws change neither).
pub open spec fn keeps_last_reading(a: ClockState, b: ClockState) -> bool {
    a.last_sim_us == b.last_sim_us && a.last_true_time == b.last_true_time
}

/// The state before reading `k` of a run that starts consistent, at a true
/// time no earlier than the clock's last, with readings at non-decreasing
/// true times: consistent, no later than the reading's true time, and
/// holding the previous reading.
proof fn lemma_reading_prefix(
    cfg: ClockConfig,
    before: Seq<ClockState>,
    after: Seq<ClockState>,
    times: Seq<i64>,
    readings: Seq<i64>,
    k: int,
)
    requires
        before.len() == after.len() == times.len() == readings.len(),
        0 <= k < before.len(),
        is_consistent(cfg, before[0]),
        times[0] >= before[0].last_true_time,
        forall|i: int| 0 <= i < before.len() ==> #[trigger] reading_step(cfg, before[i], after[i], times[i], readings[i]),
        forall|i: int| 0 <= i < before.len() - 1 ==> #[trigger] keeps_last_reading(after[i], before[i + 1]),
        forall|i: int| 0 <= i < times.len() - 1 ==> #[trigger] times[i] <= times[i + 1],
    ensures
        is_consistent(cfg, before[k]),
        times[k] >= before[k].last_true_time,
        k > 0 ==> before[k].last_sim_us == readings[k - 1],
    decreases k,
{
    if k > 0 {
        lemma_reading_prefix(cfg, before, after, times, readings, k - 1);
        assert(reading_step(cfg, before[k - 1], after[k - 1], times[k - 1], readings[k - 1]));
        assert(keeps_last_reading(after[k - 1], before[k]));
        assert(times[k - 1] <= times[k]);
    }
}

/// Readings are non-decreasing along the run.
proof fn lemma_readings_monotone(
    cfg: ClockConfig,
    before: Seq<ClockState>,
    after: Seq<ClockState>,
    times: Seq<i64>,
    readings: Seq<i64>,
    i: int,
    j: int,
)
    requires
        before.len() == after.len() == times.len() == readings.len(),
        0 <= i <= j < before.len(),
        is_consistent(cfg, before[0]),
        times[0] >= before[0].last_true_time,
        forall|l: int| 0 <= l < before.len() ==> #[trigger] reading_step(cfg, before[l], after[l], times[l], readings[l]),
        forall|l: int| 0 <= l < before.len() - 1 ==> #[trigger] keeps_last_reading(after[l], before[l + 1]),
        forall|l: int| 0 <= l < times.len() - 1 ==> #[trigger] times[l] <= times[l + 1],
    ensures
        readings[i] <= readings[j],
    decreases j - i,
{
    if i < j {
        lemma_readings_monotone(cfg, before, after, times, readings, i, j - 1);
        lemma_reading_prefix(cfg, before, after, times, readings, j);
        assert(reading_step(cfg, before[j], after[j], times[j], readings[j]));
    }
}

/// Over any run of readings of a clock that starts consistent (as
/// `ClockState::new` makes it), with true times that never go back, where
/// each reading is taken by `read_time` or `read_time_with_uncertainty` and
/// what happens between readings keeps the last one: every reading lies in
/// `true_time ± bound`, and no reading is below an earlier one.
pub proof fn lemma_readings_in_range_and_monotone(
    cfg: ClockConfig,
    before: Seq<ClockState>,
    after: Seq<ClockState>,
    times: Seq<i64>,
    readings: Seq<i64>,
)
    requires
        before.len() == after.len() == times.len() == readings.len(),
        before.len() > 0 ==> is_consistent(cfg, before[0]) && times[0] >= before[0].last_true_time,
        forall|i: int| 0 <= i < before.len() ==> #[trigger] reading_step(cfg, before[i], after[i], times[i], readings[i]),
        forall|i: int| 0 <= i < before.len() - 1 ==> #[trigger] keeps_last_reading(after[i], before[i + 1]),
        forall|i: int| 0 <= i < times.len() - 1 ==> #[trigger] times[i] <= times[i + 1],
    ensures
        forall|i: int| 0 <= i < readings.len() ==> allowed_range_of(cfg, times[i]).0 <= #[trigger] readings[i]
            <= allowed_range_of(cfg, times[i]).1,
        forall|i: int, j: int| 0 <= i <= j < readings.len() ==> #[trigger] readings[i] <= #[trigger] readings[j],
{
    assert forall|i: int| 0 <= i < readings.len() implies allowed_range_of(cfg, times[i]).0 <= #[trigger] readings[i]
        <= allowed_range_of(cfg, times[i]).1 by {
        lemma_reading_prefix(cfg, before, after, times, readings, i);
        assert(reading_step(cfg, before[i], after[i], times[i], readings[i]));
    }
    assert forall|i: int, j: int| 0 <= i <= j < readings.len() implies #[trigger] readings[i] <= #[trigger] readings[j] by {
        lemma_readings_monotone(cfg, before, after, times, readings, i, j);
    }
}

/// Reads the simulated clock at `true_time`: performs the resyncs that are
/// due, then returns the simulated time clamped into the allowed range and
/// at or above the last reading, and records it as the last reading.
/// Returns `None` where the offset adjustment of the clamp falls outside
/// `i64`.
///
/// Where the clock was consistent and the true time has not gone back, the
/// reading lies in `true_time ± bound`, is at or above the last reading, and
/// the clock stays consistent.
pub fn read_time(cfg: &ClockConfig, state: &mut ClockState, true_time: i64) -> (r: Option<i64>)
    requires
        cfg.is_valid(),
        true_time < i64::MAX,
    ensures
        r matches Some(t) ==> {
            let offset = if old(state).next_resync_sim_us > true_time {
                old(state).base_sim_offset_us
            } else {
                0
            };
            let sim = sim_time_of(*cfg, true_time, offset, final(state).last_sync_true_time);
            let range = allowed_range_of(*cfg, true_time);
            &&& t == clamped_of(sim, range.0, range.1, old(state).last_sim_us)
            &&& final(state).last_sim_us == t
            &&& final(state).last_sim_time == t
            &&& final(state).last_true_time == true_time
            &&& final(state).next_resync_sim_us > true_time
            &&& t != sim ==> final(state).base_sim_offset_us == clamp_i64(offset + (t - sim))
            &&& t == sim ==> final(state).base_sim_offset_us == offset
            &&& (is_consistent(*cfg, *old(state)) && true_time >= old(state).last_true_time) ==> {
                &&& range.0 <= t <= range.1
                &&& t >= old(state).last_sim_us
                &&& is_consistent(*cfg, *final(state))
            }
        },
        r is None <==> !clamp_fits(
            sim_time_of(
                *cfg,
                true_time,
                if old(state).next_resync_sim_us > true_time { old(state).base_sim_offset_us } else { 0 },
                final(state).last_sync_true_time,
            ),
            allowed_range_of(*cfg, true_time).0,
            allowed_range_of(*cfg, true_time).1,
            old(state).last_sim_us,
        ),
        old(state).next_resync_sim_us > true_time ==> final(state).last_sync_true_time == old(state).last_sync_true_time,
        old(state).next_resync_sim_us <= true_time ==> {
            &&& old(state).next_resync_sim_us <= final(state).last_sync_true_time <= true_time
            &&& (final(state).last_sync_true_time - old(state).next_resync_sim_us) % (cfg.sync_period_us as int) == 0
            &&& final(state).last_sync_true_time + cfg.sync_period_us > true_time
        },
        final(state).rng == old(state).rng,
        final(state).next_resync_sim_us > true_time,
        r is None ==> {
            &&& final(state).last_sim_us == old(state).last_sim_us
            &&& final(state).last_true_time == old(state).last_true_time
            &&& final(state).last_sim_time == old(state).last_sim_time
        },
        (is_consistent(*cfg, *old(state)) && true_time >= old(state).last_true_time) ==> is_consistent(*cfg, *final(state)),
        r matches Some(t) ==> reading_step(*cfg, *old(state), *final(state), true_time, t),
{
    catch_up(cfg, true_time, state);
    let sim_time = compute_sim_time(cfg, true_time, state.base_sim_offset_us, state.last_sync_true_time);
    let (min_allowed, max_allowed) = allowed_range(cfg, true_time);
    let lower = max_i64(state.last_sim_us, min_allowed);
    let fits = if sim_time < lower {
        lower.checked_sub(sim_time).is_some()
    } else if sim_time > max_allowed {
        max_allowed.checked_sub(sim_time).is_some()
    } else {
        true
    };
    if !fits {
        return None;
    }
    let clamped = clamp_sim_time(sim_time, min_allowed, max_allowed, state);
    proof {
        if is_consistent(*cfg, *old(state)) && true_time >= old(state).last_true_time {
            let b = cfg.bound();
            assert(allowed_range_of(*cfg, old(state).last_true_time).1 <= max_allowed);
        }
    }
    state.last_sim_us = clamped;
    state.last_true_time = true_time;
    state.last_sim_time = clamped;
    Some(clamped)
}

/// The uncertainty reported with the last reading: drawn from
/// `error..=upper`, where `error` is the distance between the last simulated
/// and true times and `upper` is the larger of the sync uncertainty and
/// `error`; it is `upper` itself where `upper` is zero or equals `error`.
/// Returns `None` where that distance falls outside `i64`.
pub fn current_uncertainty(cfg: &ClockConfig, state: &mut ClockState) -> (r: Option<i64>)
    ensures
        final(state).base_sim_offset_us == old(state).base_sim_offset_us,
        final(state).last_sim_us == old(state).last_sim_us,
        final(state).next_resync_sim_us == old(state).next_resync_sim_us,
        final(state).last_sync_true_time == old(state).last_sync_true_time,
        final(state).last_true_time == old(state).last_true_time,
        final(state).last_sim_time == old(state).last_sim_time,
        (i64::MIN <= old(state).last_sim_time - old(state).last_true_time <= i64::MAX) <==> r is Some,
        r matches Some(u) ==> {
            let error = abs_sat((old(state).last_sim_time - old(state).last_true_time) as i64);
            let upper = max_int(cfg.sync_uncertainty_us as int, error as int);
            &&& error <= u <= upper
            &&& (upper == 0 || upper == error) ==> u == upper
        },
{
    let diff = match state.last_sim_time.checked_sub(state.last_true_time) {
        Some(d) => d,
        None => {
            return None;
        },
    };
    let error_abs = abs_i64(diff);
    let upper = max_i64(cfg.sync_uncertainty_us, error_abs);
    if upper == 0 || upper == error_abs {
        return Some(upper);
    }
    Some(gen_range_inclusive(&mut state.rng, error_abs, upper))
}

/// Reads the clock at `true_time` as `read_time` does and returns the
/// reading with the uncertainty of `current_uncertainty`. The true time lies
/// within the reading plus or minus the uncertainty.
pub fn read_time_with_uncertainty(cfg: &ClockConfig, state: &mut ClockState, true_time: i64) -> (r: Option<(i64, i64)>)
    requires
        cfg.is_valid(),
        true_time < i64::MAX,
    ensures
        ({
            let offset = if old(state).next_resync_sim_us > true_time {
                old(state).base_sim_offset_us
            } else {
                0
            };
            let sim = sim_time_of(*cfg, true_time, offset, final(state).last_sync_true_time);
            let range = allowed_range_of(*cfg, true_time);
            let reading = clamped_of(sim, range.0, range.1, old(state).last_sim_us);
            &&& r is None <==> !(clamp_fits(sim, range.0, range.1, old(state).last_sim_us)
                && i64::MIN <= reading - true_time <= i64::MAX)
            &&& r matches Some((t, u)) ==> {
                let error = abs_sat((t - true_time) as i64);
                &&& t == reading
                &&& final(state).last_sim_us == t
                &&& final(state).last_sim_time == t
                &&& final(state).last_true_time == true_time
                &&& t != sim ==> final(state).base_sim_offset_us == clamp_i64(offset + (t - sim))
                &&& t == sim ==> final(state).base_sim_offset_us == offset
                &&& error <= u <= max_int(cfg.sync_uncertainty_us as int, error as int)
                &&& t - u <= true_time <= t + u
                &&& (is_consistent(*cfg, *old(state)) && true_time >= old(state).last_true_time) ==> {
                    &&& range.0 <= t <= range.1
                    &&& t >= old(state).last_sim_us
                    &&& 0 <= u <= cfg.bound()
                }
            }
        }),
        final(state).next_resync_sim_us > true_time,
        old(state).next_resync_sim_us > true_time ==> final(state).last_sync_true_time == old(state).last_sync_true_time,
        old(state).next_resync_sim_us <= true_time ==> {
            &&& old(state).next_resync_sim_us <= final(state).last_sync_true_time <= true_time
            &&& (final(state).last_sync_true_time - old(state).next_resync_sim_us) % (cfg.sync_period_us as int) == 0
            &&& final(state).last_sync_true_time + cfg.sync_period_us > true_time
        },
        (is_consistent(*cfg, *old(state)) && true_time >= old(state).last_true_time) ==> is_consistent(*cfg, *final(state)),
        r matches Some((t, u)) ==> reading_step(*cfg, *old(state), *final(state), true_time, t),
{
    let t = match read_time(cfg, state, true_time) {
        Some(t) => t,
        None => {
            return None;
        },
    };
    let u = match current_uncertainty(cfg, state) {
        Some(u) => u,
        None => {
            return None;
        },
    };
    Some((t, u))
}

impl ClockState {
    /// The state of a clock started at `base_epoch_us`: no offset, the first
    /// resync one period later, every time at the start, and a generator
    /// seeded from the configured seed or, without one, from a random seed.
    pub fn new(cfg: &ClockConfig, base_epoch_us: i64) -> (s: Self)
        requires
            cfg.is_valid(),
        ensures
            s.base_sim_offset_us == 0,
            s.last_sim_us == base_epoch_us,
            s.next_resync_sim_us == clamp_i64(base_epoch_us + cfg.sync_period_us),
            s.last_sync_true_time == base_epoch_us,
            s.last_true_time == base_epoch_us,
            s.last_sim_time == base_epoch_us,
            is_consistent(*cfg, s),
            cfg.seed matches Some(seed) ==> s.rng == spec_seeded_rng(seed),
    {
        let seed = match cfg.seed {
            Some(seed) => seed,
            None => random_seed(),
        };
        let rng = seeded_rng(seed);
        let next_resync_sim_us = saturating_add(base_epoch_us, cfg.sync_period_us);
        ClockState {
            base_sim_offset_us: 0,
            last_sim_us: base_epoch_us,
            next_resync_sim_us,
            rng,
            last_sync_true_time: base_epoch_us,
            last_true_time: base_epoch_us,
            last_sim_time: base_epoch_us,
        }
    }
}

} // verus!
