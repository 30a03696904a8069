//! Spawner configuration, its validation, and the repeating emission timer.

use crate::interp::{Rgba, Vec2};
use vstd::prelude::*;

verus! {

/// Size at the start and at the end of a particle's life.
#[derive(Clone, Copy, Debug, PartialEq, Eq)]
pub struct ParticleSize {
    pub start: i64,
    pub end: i64,
}

/// Velocity, in units per second, at the start and at the end of a
/// particle's life.
#[derive(Clone, Copy, Debug, PartialEq, Eq)]
pub struct ParticleVelocity {
    pub start: Vec2,
    pub end: Vec2,
}

/// Colour at the start and at the end of a particle's life.
#[derive(Clone, Copy, Debug, PartialEq, Eq)]
pub struct ParticleColor {
    pub start: Rgba,
    pub end: Rgba,
}

/// The parameters of one emission source. A curve that is `None` leaves the
/// attribute as it was when the particle was created.
#[derive(Clone, Copy, Debug, PartialEq, Eq)]
pub struct ParticleSpawner {
    /// Ticks between two bursts.
    pub rate: u64,
    /// Slots activated by one burst.
    pub amount_per_burst: usize,
    /// Half-width of the square in which particles appear.
    pub position_variance: i64,
    /// Ticks for which a particle stays active.
    pub particle_lifetime: u64,
    pub particle_size: Option<ParticleSize>,
    pub particle_velocity: Option<ParticleVelocity>,
    pub particle_color: Option<ParticleColor>,
}

/// Why a configuration cannot be turned into a pool.
#[derive(Clone, Copy, Debug, PartialEq, Eq)]
pub enum ConfigError {
    /// The time between bursts is zero.
    ZeroRate,
    /// The particle lifetime is zero.
    ZeroLifetime,
    /// The pool would hold more slots than can be addressed.
    PoolTooLarge,
}

impl ParticleSpawner {
    /// Both the burst period and the particle lifetime are positive.
    pub open spec fn valid(self) -> bool {
        self.rate > 0 && self.particle_lifetime > 0
    }

    /// Bursts that can be alive at once, with ten percent headroom:
    /// `1.1 * particle_lifetime / rate`, rounded up.
    pub open spec fn batches_spec(self) -> int {
        (11 * self.particle_lifetime + 10 * self.rate - 1) / (10 * self.rate)
    }

    /// The number of slots the pool is created with.
    pub open spec fn pool_size_spec(self) -> int {
        self.batches_spec() * self.amount_per_burst
    }

    /// The error a configuration is rejected with, if any. A zero rate is
    /// reported before a zero lifetime.
    pub open spec fn error_spec(self) -> Option<ConfigError> {
        if self.rate == 0 {
            Some(ConfigError::ZeroRate)
        } else if self.particle_lifetime == 0 {
            Some(ConfigError::ZeroLifetime)
        } else if self.pool_size_spec() > usize::MAX {
            Some(ConfigError::PoolTooLarge)
        } else {
            None
        }
    }

    /// Checks the configuration and computes the size of its pool.
    pub fn pool_size(&self) -> (r: Result<usize, ConfigError>)
        ensures
            match r {
                Ok(n) => self.error_spec().is_none() && n == self.pool_size_spec(),
                Err(e) => self.error_spec() == Some(e),
            },
    {
        if self.rate == 0 {
            return Err(ConfigError::ZeroRate);
        }
        if self.particle_lifetime == 0 {
            return Err(ConfigError::ZeroLifetime);
        }
        let num: u128 = 11 * (self.particle_lifetime as u128);
        let den: u128 = 10 * (self.rate as u128);
        let batches: u128 = (num + den - 1) / den;
        let burst: u128 = self.amount_per_burst as u128;
        if burst == 0 {
            assert(self.batches_spec() * 0 == 0);
            return Ok(0);
        }
        let limit: u128 = usize::MAX as u128;
        if batches > limit {
            assert(self.batches_spec() * self.amount_per_burst > usize::MAX) by (nonlinear_arith)
                requires
                    self.batches_spec() > usize::MAX,
                    self.amount_per_burst >= 1,
            ;
            return Err(ConfigError::PoolTooLarge);
        }
        assert(batches * burst <= 0xffff_ffff_ffff_ffff * 0xffff_ffff_ffff_ffff) by (nonlinear_arith)
            requires
                0 <= batches <= 0xffff_ffff_ffff_ffff,
                0 <= burst <= 0xffff_ffff_ffff_ffff,
        ;
        let total: u128 = batches * burst;
        if total > limit {
            Err(ConfigError::PoolTooLarge)
        } else {
            Ok(total as usize)
        }
    }
}

/// A repeating timer: `elapsed` ticks into the current period.
#[derive(Clone, Copy, Debug, PartialEq, Eq)]
pub struct ParticleSpawnerTimer {
    pub elapsed: u64,
    pub period: u64,
}

impl ParticleSpawnerTimer {
    /// The period is positive and the elapsed time lies inside it.
    pub open spec fn wf(self) -> bool {
        self.period > 0 && self.elapsed < self.period
    }

    /// How many period boundaries are crossed when `delta` ticks pass.
    pub open spec fn fires(self, delta: u64) -> int {
        (self.elapsed + delta) / (self.period as int)
    }

    /// The timer after `delta` ticks: it re-arms at every boundary crossed.
    pub open spec fn ticked(self, delta: u64) -> ParticleSpawnerTimer {
        ParticleSpawnerTimer {
            elapsed: ((self.elapsed + delta) % (self.period as int)) as u64,
            period: self.period,
        }
    }

    /// A timer at the start of its first period, or `None` for a period of
    /// zero.
    pub fn new(period: u64) -> (r: Option<ParticleSpawnerTimer>)
        ensures
            r.is_some() <==> period > 0,
            r.is_some() ==> r.unwrap() == (ParticleSpawnerTimer { elapsed: 0, period })
                && r.unwrap().wf(),
    {
        if period == 0 {
            None
        } else {
            Some(ParticleSpawnerTimer { elapsed: 0, period })
        }
    }

    /// Lets `delta` ticks pass and returns how many times the timer fired.
    pub fn tick(&mut self, delta: u64) -> (fired: u64)
        requires
            old(self).wf(),
        ensures
            *final(self) == old(self).ticked(delta),
            fired == old(self).fires(delta),
            final(self).wf(),
    {
        let total: u128 = self.elapsed as u128 + delta as u128;
        let period: u128 = self.period as u128;
        let fired: u128 = total / period;
        let rest: u128 = total % period;
        proof {
            lemma_fires_bounded(self.elapsed as int, delta as int, self.period as int);
        }
        self.elapsed = rest as u64;
        fired as u64
    }
}

/// A timer that is inside its period cannot fire more often than a `u64`
/// counts, and what is left after firing lies inside the period again.
proof fn lemma_fires_bounded(elapsed: int, delta: int, period: int)
    requires
        0 <= elapsed < period,
        0 <= delta <= u64::MAX,
        period <= u64::MAX,
    ensures
        0 <= (elapsed + delta) / period <= u64::MAX,
        0 <= (elapsed + delta) % period < period,
{
    let total = elapsed + delta;
    assert(0 <= total % period < period) by (nonlinear_arith)
        requires
            period > 0,
            total >= 0,
    ;
    assert(0 <= total / period) by (nonlinear_arith)
        requires
            period > 0,
            total >= 0,
    ;
    if period == 1 {
        assert(total / 1 == total);
    } else {
        assert(total <= period * u64::MAX) by (nonlinear_arith)
            requires
                period >= 2,
                total <= period - 1 + u64::MAX,
        ;
        assert(total / period <= u64::MAX) by (nonlinear_arith)
            requires
                period > 0,
                0 <= total <= period * u64::MAX,
        ;
    }
}

/// A timer that is inside its period does not fire, and does not move, when
/// no time passes.
pub proof fn lemma_tick_zero(t: ParticleSpawnerTimer)
    requires
        t.wf(),
    ensures
        t.fires(0) == 0,
        t.ticked(0) == t,
{
    let e = t.elapsed as int;
    let p = t.period as int;
    assert(e / p == 0 && e % p == e) by (nonlinear_arith)
        requires
            0 <= e < p,
    ;
}

} // verus!
