//! Signals that swing with the clock.
//!
//! Both signals have the period as their cycle. The ping-pong signal climbs
//! from 0 towards 1 over the whole period and starts again; the wave climbs
//! from 0 to 1 over the first half and comes down over the second. A sample
//! is an exact fraction: the caller divides.

use vstd::prelude::*;

verus! {

/// A fraction between 0 and 1.
#[derive(Clone, Copy, Debug, PartialEq, Eq, Structural)]
pub struct Ratio {
    pub numerator: u64,
    pub denominator: u64,
}

/// How far into its cycle a clock reading is: the reading modulo the
/// period.
pub open spec fn phase(total_milliseconds: u128, cycle_duration_ms: u64) -> int
    recommends
        cycle_duration_ms > 0,
{
    (total_milliseconds as int) % (cycle_duration_ms as int)
}

/// The numerator of the wave over the period: twice the phase on the way
/// up, and on the way down twice what is left of the period.
pub open spec fn wave_numerator(total_milliseconds: u128, cycle_duration_ms: u64) -> int {
    let at = phase(total_milliseconds, cycle_duration_ms);
    if 2 * at < cycle_duration_ms {
        2 * at
    } else {
        2 * (cycle_duration_ms - at)
    }
}

/// The ping-pong signal at a clock reading: the phase over the period.
pub open spec fn pingpong(total_milliseconds: u128, cycle_duration_ms: u64) -> Ratio {
    Ratio {
        numerator: phase(total_milliseconds, cycle_duration_ms) as u64,
        denominator: cycle_duration_ms,
    }
}

/// The wave at a clock reading.
pub open spec fn wave(total_milliseconds: u128, cycle_duration_ms: u64) -> Ratio {
    Ratio {
        numerator: wave_numerator(total_milliseconds, cycle_duration_ms) as u64,
        denominator: cycle_duration_ms,
    }
}

/// Both signals stay between 0 and 1, the ping-pong signal below 1.
pub proof fn lemma_signals_in_unit_range(total_milliseconds: u128, cycle_duration_ms: u64)
    requires
        cycle_duration_ms > 0,
    ensures
        0 <= phase(total_milliseconds, cycle_duration_ms) < cycle_duration_ms,
        0 <= wave_numerator(total_milliseconds, cycle_duration_ms) <= cycle_duration_ms,
        pingpong(total_milliseconds, cycle_duration_ms).numerator < cycle_duration_ms,
        wave(total_milliseconds, cycle_duration_ms).numerator <= cycle_duration_ms,
{
}

/// The wave is at its top exactly in the middle of the cycle.
pub proof fn lemma_wave_tops_at_half(total_milliseconds: u128, cycle_duration_ms: u64)
    requires
        cycle_duration_ms > 0,
    ensures
        wave(total_milliseconds, cycle_duration_ms).numerator == cycle_duration_ms <==> 2 * phase(
            total_milliseconds,
            cycle_duration_ms,
        ) == cycle_duration_ms,
{
}

/// A clock reading that is later by whole periods gives the same signals,
/// and so does the phase taken as a reading.
pub proof fn lemma_signals_repeat(total_milliseconds: u128, periods: nat, cycle_duration_ms: u64)
    requires
        cycle_duration_ms > 0,
        total_milliseconds + periods * cycle_duration_ms <= u128::MAX,
    ensures
        pingpong(
            (total_milliseconds + periods * cycle_duration_ms) as u128,
            cycle_duration_ms,
        ) == pingpong(total_milliseconds, cycle_duration_ms),
        wave((total_milliseconds + periods * cycle_duration_ms) as u128, cycle_duration_ms)
            == wave(total_milliseconds, cycle_duration_ms),
        pingpong(phase(total_milliseconds, cycle_duration_ms) as u128, cycle_duration_ms)
            == pingpong(total_milliseconds, cycle_duration_ms),
        wave(phase(total_milliseconds, cycle_duration_ms) as u128, cycle_duration_ms) == wave(
            total_milliseconds,
            cycle_duration_ms,
        ),
{
    let t = total_milliseconds as int;
    let p = cycle_duration_ms as int;
    let k = periods as int;
    assert((t + k * p) % p == t % p) by {
        vstd::arithmetic::div_mod::lemma_mod_multiples_vanish(k, t, p);
    }
    assert((t % p) % p == t % p) by {
        vstd::arithmetic::div_mod::lemma_mod_twice(t, p);
    }
}

/// The ping-pong signal and the wave at a clock reading.
pub fn calculate_ppw(total_milliseconds: u128, cycle_duration_ms: u64) -> (signals: (Ratio, Ratio))
    requires
        cycle_duration_ms > 0,
    ensures
        signals.0 == pingpong(total_milliseconds, cycle_duration_ms),
        signals.1 == wave(total_milliseconds, cycle_duration_ms),
{
    let at: u64 = (total_milliseconds % (cycle_duration_ms as u128)) as u64;
    let left: u64 = cycle_duration_ms - at;
    let wave: u64 = if at < left {
        2 * at
    } else {
        2 * left
    };
    (
        Ratio { numerator: at, denominator: cycle_duration_ms },
        Ratio { numerator: wave, denominator: cycle_duration_ms },
    )
}

} // verus!
