//! One recyclable particle slot and the steps that animate it.

use crate::clock::{Clock, Progress, TICKS_PER_SECOND};
use crate::interp::{
    lemma_lerp_color_fits, lemma_lerp_fits, lemma_lerp_vec2_fits, lerp, lerp_color,
    lerp_color_spec, lerp_spec, lerp_vec2, lerp_vec2_spec, Rgba, Vec2,
};
use crate::spawner::{ParticleColor, ParticleSize, ParticleSpawner, ParticleVelocity};
use vstd::prelude::*;

verus! {

/// A slot of the pool. While `visible` is false the slot is inactive: it is
/// not drawn and its clock stands still.
#[derive(Clone, Copy, Debug, PartialEq, Eq)]
pub struct Particle {
    pub lifetime: Clock,
    pub visible: bool,
    /// Set by activation and cleared by the first animation step after it:
    /// a particle is shown with its start values for the rest of the frame
    /// in which it was emitted.
    pub just_spawned: bool,
    pub position: Vec2,
    pub size: Option<i64>,
    pub color: Option<Rgba>,
    pub size_curve: Option<ParticleSize>,
    pub velocity_curve: Option<ParticleVelocity>,
    pub color_curve: Option<ParticleColor>,
}

/// What the renderer is given for one slot.
#[derive(Clone, Copy, Debug, PartialEq, Eq)]
pub struct Renderable {
    pub position: Vec2,
    pub size: Option<i64>,
    pub color: Option<Rgba>,
    pub visible: bool,
}

/// `x` clamped to the range of `i64`.
pub open spec fn saturate(x: int) -> i64 {
    if x > i64::MAX {
        i64::MAX
    } else if x < i64::MIN {
        i64::MIN
    } else {
        x as i64
    }
}

/// The offset `variance * (2 * u - 1)` for the sample `u = sample / 2^32`,
/// rounded towards zero. It lies between `-|variance|` and `|variance|`.
pub open spec fn spread_offset(variance: int, sample: u32) -> int {
    let k = sample as int - 0x8000_0000;
    let v = if variance < 0 { -variance } else { variance };
    let m = (v * (if k < 0 { -k } else { k })) / 0x8000_0000;
    if (variance < 0) != (k < 0) {
        -m
    } else {
        m
    }
}

/// The coordinate of a particle emitted around `origin`.
pub open spec fn spawn_coordinate_spec(origin: i64, variance: i64, sample: u32) -> i64 {
    saturate(origin + spread_offset(variance as int, sample))
}

/// The distance covered in `delta` ticks at `velocity` units per second,
/// rounded towards zero.
pub open spec fn displacement(velocity: int, delta: u64) -> int {
    if velocity >= 0 {
        (velocity * delta) / (TICKS_PER_SECOND as int)
    } else {
        -(((-velocity) * delta) / (TICKS_PER_SECOND as int))
    }
}

/// A coordinate after one Euler step.
pub open spec fn displaced_spec(position: i64, velocity: i64, delta: u64) -> i64 {
    saturate(position + displacement(velocity as int, delta))
}

/// The size a curve gives at progress `t`.
pub open spec fn size_at(c: ParticleSize, t: Progress) -> i64 {
    lerp_spec(c.start as int, c.end as int, t) as i64
}

/// A sampled offset never leaves the square: it lies between `-|variance|`
/// and `|variance|`.
pub proof fn lemma_spread_offset_bounded(variance: int, sample: u32)
    ensures
        variance >= 0 ==> -variance <= spread_offset(variance, sample) <= variance,
        variance < 0 ==> variance <= spread_offset(variance, sample) <= -variance,
{
    let k = sample as int - 0x8000_0000;
    let v = if variance < 0 { -variance } else { variance };
    let w = if k < 0 { -k } else { k };
    assert(0 <= v * w <= v * 0x8000_0000) by (nonlinear_arith)
        requires
            0 <= v,
            0 <= w <= 0x8000_0000,
    ;
    assert(0 <= (v * w) / 0x8000_0000 <= v) by (nonlinear_arith)
        requires
            0 <= v * w <= v * 0x8000_0000,
    ;
}

fn clamp_to_i64(x: i128) -> (r: i64)
    ensures
        r == saturate(x as int),
{
    if x > i64::MAX as i128 {
        i64::MAX
    } else if x < i64::MIN as i128 {
        i64::MIN
    } else {
        x as i64
    }
}

/// Places a coordinate inside `[origin - |variance|, origin + |variance|]`
/// from one uniform sample.
pub fn spawn_coordinate(origin: i64, variance: i64, sample: u32) -> (r: i64)
    ensures
        r == spawn_coordinate_spec(origin, variance, sample),
        variance >= 0 ==> origin - variance <= r <= origin + variance,
        variance < 0 ==> origin + variance <= r <= origin - variance,
{
    proof {
        lemma_spread_offset_bounded(variance as int, sample);
    }
    let half: i128 = 0x8000_0000;
    let k: i128 = sample as i128 - half;
    let v: u128 = if variance < 0 {
        (-(variance as i128)) as u128
    } else {
        variance as u128
    };
    let w: u128 = if k < 0 {
        (-k) as u128
    } else {
        k as u128
    };
    assert(v * w <= 0x8000_0000_0000_0000 * 0x8000_0000) by (nonlinear_arith)
        requires
            0 <= v <= 0x8000_0000_0000_0000,
            0 <= w <= 0x8000_0000,
    ;
    let m: u128 = (v * w) / 0x8000_0000;
    let offset: i128 = if (variance < 0) != (k < 0) {
        -(m as i128)
    } else {
        m as i128
    };
    clamp_to_i64(origin as i128 + offset)
}

/// Moves a coordinate by `velocity * delta`, saturating at the ends of the
/// representable range.
pub fn displaced(position: i64, velocity: i64, delta: u64) -> (r: i64)
    ensures
        r == displaced_spec(position, velocity, delta),
{
    let d: u128 = delta as u128;
    let v: u128 = if velocity < 0 {
        (-(velocity as i128)) as u128
    } else {
        velocity as u128
    };
    assert(v * d <= 0x8000_0000_0000_0000 * 0xffff_ffff_ffff_ffff) by (nonlinear_arith)
        requires
            0 <= v <= 0x8000_0000_0000_0000,
            0 <= d <= 0xffff_ffff_ffff_ffff,
    ;
    let m: u128 = (v * d) / (TICKS_PER_SECOND as u128);
    let step: i128 = if velocity >= 0 {
        m as i128
    } else {
        -(m as i128)
    };
    clamp_to_i64(position as i128 + step)
}

impl Particle {
    /// The slot's invariant: the clock is well formed; an active slot has
    /// time left and shows what its curves give at its current progress; a
    /// slot marked as just spawned is active with nothing elapsed.
    pub open spec fn wf(self) -> bool {
        &&& self.lifetime.wf()
        &&& self.visible ==> !self.lifetime.finished()
        &&& self.just_spawned ==> self.visible && self.lifetime.elapsed == 0
        &&& (self.visible && self.size_curve.is_some()) ==> self.size == Some(
            size_at(self.size_curve.unwrap(), self.lifetime.progress_spec()),
        )
        &&& (self.visible && self.color_curve.is_some()) ==> self.color == Some(
            lerp_color_spec(
                self.color_curve.unwrap().start,
                self.color_curve.unwrap().end,
                self.lifetime.progress_spec(),
            ),
        )
    }

    /// A new, inactive slot of `spawner`, placed by two samples in the square
    /// around `origin`, with its clock run out.
    pub open spec fn spawned(
        spawner: ParticleSpawner,
        origin: Vec2,
        sample_x: u32,
        sample_y: u32,
    ) -> Particle {
        Particle {
            lifetime: Clock {
                elapsed: spawner.particle_lifetime,
                duration: spawner.particle_lifetime,
            },
            visible: false,
            just_spawned: false,
            position: Vec2 {
                x: spawn_coordinate_spec(origin.x, spawner.position_variance, sample_x),
                y: spawn_coordinate_spec(origin.y, spawner.position_variance, sample_y),
            },
            size: match spawner.particle_size {
                Some(c) => Some(c.start),
                None => None,
            },
            color: match spawner.particle_color {
                Some(c) => Some(c.start),
                None => None,
            },
            size_curve: spawner.particle_size,
            velocity_curve: spawner.particle_velocity,
            color_curve: spawner.particle_color,
        }
    }

    /// The slot after activation: a fresh clock, a position sampled around
    /// `origin`, and the start value of every curve the spawner has.
    pub open spec fn activated(
        self,
        spawner: ParticleSpawner,
        origin: Vec2,
        sample_x: u32,
        sample_y: u32,
    ) -> Particle {
        Particle {
            lifetime: Clock { elapsed: 0, duration: spawner.particle_lifetime },
            visible: true,
            just_spawned: true,
            position: Vec2 {
                x: spawn_coordinate_spec(origin.x, spawner.position_variance, sample_x),
                y: spawn_coordinate_spec(origin.y, spawner.position_variance, sample_y),
            },
            size: match spawner.particle_size {
                Some(c) => Some(c.start),
                None => self.size,
            },
            color: match spawner.particle_color {
                Some(c) => Some(c.start),
                None => self.color,
            },
            size_curve: spawner.particle_size,
            velocity_curve: spawner.particle_velocity,
            color_curve: spawner.particle_color,
        }
    }

    /// The slot after its clock has advanced: an active slot whose clock
    /// runs out becomes inactive; an inactive slot is left alone.
    pub open spec fn aged(self, delta: u64) -> Particle {
        if self.visible {
            Particle {
                lifetime: self.lifetime.advanced(delta),
                visible: !self.lifetime.advanced(delta).finished(),
                ..self
            }
        } else {
            self
        }
    }

    /// The slot with its size recomputed from its size curve, if it is
    /// active and has one.
    pub open spec fn resized(self) -> Particle {
        if self.visible && self.size_curve.is_some() {
            Particle {
                size: Some(size_at(self.size_curve.unwrap(), self.lifetime.progress_spec())),
                ..self
            }
        } else {
            self
        }
    }

    /// The slot with its colour recomputed from its colour curve, if it is
    /// active and has one.
    pub open spec fn recolored(self) -> Particle {
        if self.visible && self.color_curve.is_some() {
            Particle {
                color: Some(
                    lerp_color_spec(
                        self.color_curve.unwrap().start,
                        self.color_curve.unwrap().end,
                        self.lifetime.progress_spec(),
                    ),
                ),
                ..self
            }
        } else {
            self
        }
    }

    /// The velocity an active slot with a velocity curve has right now.
    pub open spec fn velocity(self) -> Vec2 {
        lerp_vec2_spec(
            self.velocity_curve.unwrap().start,
            self.velocity_curve.unwrap().end,
            self.lifetime.progress_spec(),
        )
    }

    /// The slot after one Euler step of `delta` ticks at its current
    /// velocity, if it is active and has a velocity curve.
    pub open spec fn moved(self, delta: u64) -> Particle {
        if self.visible && self.velocity_curve.is_some() {
            Particle {
                position: Vec2 {
                    x: displaced_spec(self.position.x, self.velocity().x, delta),
                    y: displaced_spec(self.position.y, self.velocity().y, delta),
                },
                ..self
            }
        } else {
            self
        }
    }

    /// One frame of animation. An inactive slot does not change. A slot that
    /// was emitted in this frame only loses its mark. Any other active slot
    /// ages, and if it is still active it is resized, recoloured and moved.
    pub open spec fn stepped(self, delta: u64) -> Particle {
        if !self.visible {
            self
        } else if self.just_spawned {
            Particle { just_spawned: false, ..self }
        } else {
            self.aged(delta).resized().recolored().moved(delta)
        }
    }

    /// The record handed to the renderer.
    pub open spec fn renderable_spec(self) -> Renderable {
        Renderable {
            position: self.position,
            size: self.size,
            color: self.color,
            visible: self.visible,
        }
    }

    /// Activates the slot for `spawner` at a position given by two samples.
    pub fn activate(&mut self, spawner: &ParticleSpawner, origin: Vec2, sample_x: u32, sample_y: u32)
        ensures
            *final(self) == old(self).activated(*spawner, origin, sample_x, sample_y),
    {
        self.lifetime.reset(spawner.particle_lifetime);
        self.visible = true;
        self.just_spawned = true;
        self.position = Vec2 {
            x: spawn_coordinate(origin.x, spawner.position_variance, sample_x),
            y: spawn_coordinate(origin.y, spawner.position_variance, sample_y),
        };
        match spawner.particle_size {
            Some(c) => {
                self.size = Some(c.start);
            },
            None => {},
        }
        match spawner.particle_color {
            Some(c) => {
                self.color = Some(c.start);
            },
            None => {},
        }
        self.size_curve = spawner.particle_size;
        self.velocity_curve = spawner.particle_velocity;
        self.color_curve = spawner.particle_color;
    }

    /// Animates the slot for one frame of `delta` ticks.
    pub fn step(&mut self, delta: u64)
        ensures
            *final(self) == old(self).stepped(delta),
    {
        if !self.visible {
        } else if self.just_spawned {
            self.just_spawned = false;
        } else {
            update_particle_lifetime(self, delta);
            update_particle_size(self);
            update_particle_color(self);
            update_particle_position(self, delta);
        }
    }

    /// Checks the slot's invariant.
    pub fn is_wf(&self) -> (r: bool)
        ensures
            r == self.wf(),
    {
        if self.lifetime.elapsed > self.lifetime.duration {
            return false;
        }
        if self.just_spawned && !(self.visible && self.lifetime.elapsed == 0) {
            return false;
        }
        if !self.visible {
            return true;
        }
        if self.lifetime.elapsed >= self.lifetime.duration {
            return false;
        }
        let t = self.lifetime.progress();
        let size_ok = match self.size_curve {
            Some(c) => {
                proof {
                    lemma_lerp_fits(c.start, c.end, t);
                }
                let want = lerp(c.start, c.end, t);
                match self.size {
                    Some(s) => s == want,
                    None => false,
                }
            },
            None => true,
        };
        let color_ok = match self.color_curve {
            Some(c) => {
                proof {
                    lemma_lerp_color_fits(c.start, c.end, t);
                }
                let want = lerp_color(c.start, c.end, t);
                match self.color {
                    Some(k) => k.r == want.r && k.g == want.g && k.b == want.b && k.a == want.a,
                    None => false,
                }
            },
            None => true,
        };
        size_ok && color_ok
    }

    /// The record the renderer draws.
    pub fn renderable(&self) -> (r: Renderable)
        ensures
            r == self.renderable_spec(),
    {
        Renderable {
            position: self.position,
            size: self.size,
            color: self.color,
            visible: self.visible,
        }
    }
}

/// Creates an inactive slot for `spawner`, placed by two samples in the
/// square of half-width `position_variance` around `origin`.
pub fn spawn_particle(spawner: &ParticleSpawner, origin: Vec2, sample_x: u32, sample_y: u32) -> (r:
    Particle)
    ensures
        r == Particle::spawned(*spawner, origin, sample_x, sample_y),
{
    Particle {
        lifetime: Clock::expired(spawner.particle_lifetime),
        visible: false,
        just_spawned: false,
        position: Vec2 {
            x: spawn_coordinate(origin.x, spawner.position_variance, sample_x),
            y: spawn_coordinate(origin.y, spawner.position_variance, sample_y),
        },
        size: match spawner.particle_size {
            Some(c) => Some(c.start),
            None => None,
        },
        color: match spawner.particle_color {
            Some(c) => Some(c.start),
            None => None,
        },
        size_curve: spawner.particle_size,
        velocity_curve: spawner.particle_velocity,
        color_curve: spawner.particle_color,
    }
}

/// Advances the clock of an active slot and deactivates the slot once the
/// clock has run out.
pub fn update_particle_lifetime(particle: &mut Particle, delta: u64)
    ensures
        *final(particle) == old(particle).aged(delta),
{
    if particle.visible {
        particle.lifetime.advance(delta);
        if particle.lifetime.is_finished() {
            particle.visible = false;
        }
    }
}

/// Recomputes the size of an active slot from its size curve.
pub fn update_particle_size(particle: &mut Particle)
    ensures
        *final(particle) == old(particle).resized(),
{
    if particle.visible {
        match particle.size_curve {
            Some(c) => {
                let t = particle.lifetime.progress();
                proof {
                    lemma_lerp_fits(c.start, c.end, t);
                }
                particle.size = Some(lerp(c.start, c.end, t));
            },
            None => {},
        }
    }
}

/// Recomputes the colour of an active slot from its colour curve.
pub fn update_particle_color(particle: &mut Particle)
    ensures
        *final(particle) == old(particle).recolored(),
{
    if particle.visible {
        match particle.color_curve {
            Some(c) => {
                let t = particle.lifetime.progress();
                proof {
                    lemma_lerp_color_fits(c.start, c.end, t);
                }
                particle.color = Some(lerp_color(c.start, c.end, t));
            },
            None => {},
        }
    }
}

/// Moves an active slot by its current velocity times `delta`.
pub fn update_particle_position(particle: &mut Particle, delta: u64)
    ensures
        *final(particle) == old(particle).moved(delta),
{
    if particle.visible {
        match particle.velocity_curve {
            Some(c) => {
                let t = particle.lifetime.progress();
                proof {
                    lemma_lerp_vec2_fits(c.start, c.end, t);
                }
                let v = lerp_vec2(c.start, c.end, t);
                particle.position = Vec2 {
                    x: displaced(particle.position.x, v.x, delta),
                    y: displaced(particle.position.y, v.y, delta),
                };
            },
            None => {},
        }
    }
}

} // verus!
