//! Repeating countdown timers that drive the spawner.
//!
//! A timer accumulates elapsed milliseconds and fires when a period
//! boundary is crossed, at most once per tick; periods missed inside one
//! long tick are not compensated, the excess above one period is carried
//! over modulo the period.

use vstd::prelude::*;

verus! {

/// Period of the enemy-spawn timer, in milliseconds.
pub const ENEMY_SPAWN_PERIOD_MS: u32 = 2000;
/// Period of the enemy-fire timer, in milliseconds.
pub const ENEMY_FIRE_PERIOD_MS: u32 = 500;

/// A configuration fault found at startup.
#[derive(Clone, Copy, PartialEq, Eq, Structural, Debug)]
pub enum ConfigError {
    /// A timer period of zero would spawn without bound.
    ZeroPeriod,
}

/// A repeating timer: a fixed period and the time accumulated toward the
/// next expiry.
#[derive(Clone, Copy, PartialEq, Eq, Structural, Debug)]
pub struct Timer {
    /// The period, in milliseconds; always positive.
    pub period_ms: u32,
    /// Time accumulated since the last expiry; always below the period.
    pub elapsed_ms: u32,
}

/// A valid timer: positive period, accumulation below it.
pub open spec fn timer_wf(t: Timer) -> bool {
    t.period_ms > 0 && t.elapsed_ms < t.period_ms
}

/// Whether advancing `t` by `dt` milliseconds crosses the period.
pub open spec fn spec_timer_fires(t: Timer, dt: u32) -> bool {
    t.elapsed_ms + dt >= t.period_ms
}

/// The timer after advancing by `dt`: on expiry the accumulation wraps
/// modulo the period, otherwise it just grows.
pub open spec fn spec_timer_after(t: Timer, dt: u32) -> Timer {
    Timer {
        period_ms: t.period_ms,
        elapsed_ms: ((t.elapsed_ms + dt) % (t.period_ms as int)) as u32,
    }
}

impl Timer {
    /// Makes a repeating timer, rejecting the degenerate zero period.
    pub fn new(period_ms: u32) -> (r: Result<Timer, ConfigError>)
        ensures
            period_ms == 0 ==> r == Result::<Timer, ConfigError>::Err(ConfigError::ZeroPeriod),
            period_ms > 0 ==> r == Result::<Timer, ConfigError>::Ok(
                Timer { period_ms, elapsed_ms: 0 },
            ),
    {
        if period_ms == 0 {
            Result::Err(ConfigError::ZeroPeriod)
        } else {
            Result::Ok(Timer { period_ms, elapsed_ms: 0 })
        }
    }

    /// Advances the timer by `dt` milliseconds and reports whether it
    /// fired; fires at most once however long the tick was.
    pub fn tick(&mut self, dt: u32) -> (fired: bool)
        requires
            timer_wf(*old(self)),
        ensures
            timer_wf(*final(self)),
            *final(self) == spec_timer_after(*old(self), dt),
            fired == spec_timer_fires(*old(self), dt),
    {
        let sum: u64 = self.elapsed_ms as u64 + dt as u64;
        if sum >= self.period_ms as u64 {
            let rest: u64 = sum % (self.period_ms as u64);
            self.elapsed_ms = rest as u32;
            true
        } else {
            proof {
                vstd::arithmetic::div_mod::lemma_small_mod(
                    (old(self).elapsed_ms + dt) as nat,
                    old(self).period_ms as nat,
                );
            }
            self.elapsed_ms = sum as u32;
            false
        }
    }
}

/// The two timers that drive the spawner.
#[derive(Clone, Copy, PartialEq, Eq, Structural, Debug)]
pub struct SpawnTimer {
    /// Drives periodic enemy creation.
    pub enemy: Timer,
    /// Drives periodic enemy fire; one shared timer, ticked once per tick,
    /// on whose expiry every live enemy fires.
    pub enemy_laser: Timer,
}

impl Default for SpawnTimer {
    /// The stock configuration: an enemy every two seconds, a volley every
    /// half second.
    fn default() -> (t: Self)
        ensures
            t.enemy == (Timer { period_ms: ENEMY_SPAWN_PERIOD_MS, elapsed_ms: 0 }),
            t.enemy_laser == (Timer { period_ms: ENEMY_FIRE_PERIOD_MS, elapsed_ms: 0 }),
            timer_wf(t.enemy),
            timer_wf(t.enemy_laser),
    {
        SpawnTimer {
            enemy: Timer { period_ms: ENEMY_SPAWN_PERIOD_MS, elapsed_ms: 0 },
            enemy_laser: Timer { period_ms: ENEMY_FIRE_PERIOD_MS, elapsed_ms: 0 },
        }
    }
}

} // verus!
