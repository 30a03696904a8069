//! The fixed pool of slots owned by one spawner: creation, burst emission,
//! and the per-frame pass over its slots.

use crate::interp::{lemma_lerp_at_zero, Vec2};
use crate::particle::{spawn_particle, Particle, Renderable};
use crate::spawner::{ConfigError, ParticleSpawner, ParticleSpawnerTimer};
use vstd::prelude::*;

verus! {

/// One emission source together with the slots it owns. The number of
/// slots is fixed when the pool is created.
#[derive(Clone, Debug, PartialEq, Eq)]
pub struct ParticlePool {
    pub spawner: ParticleSpawner,
    pub timer: ParticleSpawnerTimer,
    pub origin: Vec2,
    pub children: Vec<Particle>,
}

/// How many of the first `i` slots are inactive.
pub open spec fn inactive_before(s: Seq<Particle>, i: int) -> int
    decreases i,
{
    if i <= 0 {
        0
    } else {
        inactive_before(s, i - 1) + if s[i - 1].visible { 0int } else { 1int }
    }
}

/// How many of the first `i` slots are active.
pub open spec fn active_before(s: Seq<Particle>, i: int) -> int
    decreases i,
{
    if i <= 0 {
        0
    } else {
        active_before(s, i - 1) + if s[i - 1].visible { 1int } else { 0int }
    }
}

/// How many slots are active.
pub open spec fn active_count(s: Seq<Particle>) -> int {
    active_before(s, s.len() as int)
}

/// How many slots are inactive.
pub open spec fn inactive_count(s: Seq<Particle>) -> int {
    inactive_before(s, s.len() as int)
}

/// `post` is `pre` activated at some sampled position.
pub open spec fn is_activation(
    pre: Particle,
    post: Particle,
    spawner: ParticleSpawner,
    origin: Vec2,
) -> bool {
    exists|sx: u32, sy: u32| post == #[trigger] pre.activated(spawner, origin, sx, sy)
}

/// `p` is a new slot of `spawner`, placed at some sampled position.
pub open spec fn is_spawn(p: Particle, spawner: ParticleSpawner, origin: Vec2) -> bool {
    exists|sx: u32, sy: u32| p == #[trigger] Particle::spawned(spawner, origin, sx, sy)
}

/// `slots` are `count` new slots of `spawner`, each placed at some sampled
/// position of its own.
pub open spec fn all_spawned(
    slots: Seq<Particle>,
    spawner: ParticleSpawner,
    origin: Vec2,
    count: int,
) -> bool {
    &&& slots.len() == count
    &&& forall|i: int| 0 <= i < slots.len() ==> is_spawn(#[trigger] slots[i], spawner, origin)
}

/// Whether slot `i` is one of the first `count` inactive slots of `pre`.
pub open spec fn is_chosen(pre: Seq<Particle>, i: int, count: int) -> bool {
    !pre[i].visible && inactive_before(pre, i) < count
}

/// `post` is `pre` after a demand for `count` activations: the first
/// `count` inactive slots, in index order, are activated and every other
/// slot is untouched.
pub open spec fn emitted(
    pre: Seq<Particle>,
    post: Seq<Particle>,
    spawner: ParticleSpawner,
    origin: Vec2,
    count: int,
) -> bool {
    &&& post.len() == pre.len()
    &&& forall|i: int|
        #![trigger post[i]]
        0 <= i < pre.len() ==> if is_chosen(pre, i, count) {
            is_activation(pre[i], post[i], spawner, origin)
        } else {
            post[i] == pre[i]
        }
}

/// `post` is `pre` after every slot has been animated by `delta` ticks.
pub open spec fn animated(pre: Seq<Particle>, post: Seq<Particle>, delta: u64) -> bool {
    &&& post.len() == pre.len()
    &&& forall|i: int| 0 <= i < pre.len() ==> #[trigger] post[i] == pre[i].stepped(delta)
}

/// The number of inactive slots among the first `i` is between zero and `i`,
/// and together with the active ones they are `i`.
pub proof fn lemma_counts(s: Seq<Particle>, i: int)
    requires
        0 <= i,
    ensures
        0 <= inactive_before(s, i) <= i,
        0 <= active_before(s, i) <= i,
        inactive_before(s, i) + active_before(s, i) == i,
    decreases i,
{
    if i > 0 {
        lemma_counts(s, i - 1);
    }
}

/// The counts over the first `i` slots depend only on those slots' flags.
pub proof fn lemma_counts_prefix(s: Seq<Particle>, t: Seq<Particle>, i: int)
    requires
        0 <= i <= s.len(),
        i <= t.len(),
        forall|j: int| 0 <= j < i ==> s[j].visible == t[j].visible,
    ensures
        active_before(s, i) == active_before(t, i),
        inactive_before(s, i) == inactive_before(t, i),
    decreases i,
{
    if i > 0 {
        lemma_counts_prefix(s, t, i - 1);
    }
}

/// An activated slot of a valid spawner satisfies the slot invariant.
pub proof fn lemma_activated_wf(p: Particle, spawner: ParticleSpawner, origin: Vec2, sx: u32, sy: u32)
    requires
        spawner.valid(),
    ensures
        p.activated(spawner, origin, sx, sy).wf(),
        p.activated(spawner, origin, sx, sy).visible,
{
    let q = p.activated(spawner, origin, sx, sy);
    let t = q.lifetime.progress_spec();
    if spawner.particle_size.is_some() {
        let c = spawner.particle_size.unwrap();
        lemma_lerp_at_zero(c.start as int, c.end as int, t);
    }
    if spawner.particle_color.is_some() {
        let c = spawner.particle_color.unwrap();
        lemma_lerp_at_zero(c.start.r as int, c.end.r as int, t);
        lemma_lerp_at_zero(c.start.g as int, c.end.g as int, t);
        lemma_lerp_at_zero(c.start.b as int, c.end.b as int, t);
        lemma_lerp_at_zero(c.start.a as int, c.end.a as int, t);
    }
}

/// Animating a slot keeps the slot invariant and leaves no spawn mark.
pub proof fn lemma_stepped_wf(p: Particle, delta: u64)
    requires
        p.wf(),
    ensures
        p.stepped(delta).wf(),
        !p.stepped(delta).just_spawned,
{
}

/// Draws one value from `rand::random::<u32>()`, the thread-local generator
/// of the `rand` crate. The value is random: nothing is claimed of it.
#[verifier::external_body]
fn random_sample() -> (r: u32) {
    rand::random::<u32>()
}

impl ParticlePool {
    /// The pool's invariant: a valid configuration, a timer of the
    /// configured period, and well-formed slots.
    pub open spec fn wf(self) -> bool {
        &&& self.spawner.valid()
        &&& self.timer.wf()
        &&& self.timer.period == self.spawner.rate
        &&& forall|i: int| 0 <= i < self.children@.len() ==> (#[trigger] self.children@[i]).wf()
    }

    /// No slot carries the mark of the frame it was emitted in: the state of
    /// a pool between two frames.
    pub open spec fn settled(self) -> bool {
        forall|i: int| 0 <= i < self.children@.len() ==> !(#[trigger] self.children@[i]).just_spawned
    }

    /// The number of activations asked for when `delta` ticks pass: one
    /// burst for every period boundary crossed.
    pub open spec fn demand(self, delta: u64) -> int {
        self.timer.fires(delta) * self.spawner.amount_per_burst
    }

    /// A pool of `count` inactive slots, each placed at a sampled position,
    /// or the reason the configuration is rejected: a zero rate first, then
    /// a zero lifetime.
    pub fn with_slots(spawner: ParticleSpawner, origin: Vec2, count: usize) -> (r: Result<
        ParticlePool,
        ConfigError,
    >)
        ensures
            match r {
                Ok(pool) => {
                    &&& spawner.valid()
                    &&& pool.spawner == spawner
                    &&& pool.origin == origin
                    &&& pool.timer == (ParticleSpawnerTimer { elapsed: 0, period: spawner.rate })
                    &&& all_spawned(pool.children@, spawner, origin, count as int)
                    &&& pool.wf()
                    &&& pool.settled()
                    &&& active_count(pool.children@) == 0
                },
                Err(e) => {
                    &&& !spawner.valid()
                    &&& e == if spawner.rate == 0 {
                        ConfigError::ZeroRate
                    } else {
                        ConfigError::ZeroLifetime
                    }
                },
            },
    {
        if spawner.rate == 0 {
            return Err(ConfigError::ZeroRate);
        }
        if spawner.particle_lifetime == 0 {
            return Err(ConfigError::ZeroLifetime);
        }
        let mut children: Vec<Particle> = Vec::new();
        let mut i: usize = 0;
        while i < count
            invariant
                i <= count,
                children@.len() == i,
                forall|j: int| 0 <= j < i ==> is_spawn(#[trigger] children@[j], spawner, origin),
                forall|j: int|
                    0 <= j < i ==> (#[trigger] children@[j]).wf() && !children@[j].just_spawned,
                active_before(children@, i as int) == 0,
            decreases count - i,
        {
            let ghost before = children@;
            let sx = random_sample();
            let sy = random_sample();
            children.push(spawn_particle(&spawner, origin, sx, sy));
            proof {
                lemma_counts_prefix(before, children@, i as int);
            }
            i += 1;
        }
        Ok(ParticlePool {
            spawner,
            timer: ParticleSpawnerTimer { elapsed: 0, period: spawner.rate },
            origin,
            children,
        })
    }

    /// Activates the first `count` inactive slots in index order, or all of
    /// them where fewer are inactive, and returns how many were activated.
    /// A demand that the pool cannot meet is dropped.
    pub fn activate_inactive(&mut self, count: usize) -> (activated: usize)
        requires
            old(self).wf(),
        ensures
            emitted(
                old(self).children@,
                final(self).children@,
                old(self).spawner,
                old(self).origin,
                count as int,
            ),
            activated == if count <= inactive_count(old(self).children@) {
                count as int
            } else {
                inactive_count(old(self).children@)
            },
            active_count(final(self).children@) == active_count(old(self).children@) + activated,
            final(self).spawner == old(self).spawner,
            final(self).timer == old(self).timer,
            final(self).origin == old(self).origin,
            final(self).wf(),
    {
        let ghost pre = self.children@;
        let ghost start = *self;
        let n = self.children.len();
        let mut i: usize = 0;
        let mut done: usize = 0;
        while i < n
            invariant
                i <= n,
                n == pre.len(),
                self.children@.len() == n,
                self.spawner == start.spawner,
                self.timer == start.timer,
                self.origin == start.origin,
                start.wf(),
                pre == start.children@,
                done <= count,
                done <= i,
                done == if count <= inactive_before(pre, i as int) {
                    count as int
                } else {
                    inactive_before(pre, i as int)
                },
                active_before(self.children@, i as int) == active_before(pre, i as int) + done,
                forall|j: int|
                    #![trigger self.children@[j]]
                    0 <= j < i ==> if is_chosen(pre, j, count as int) {
                        is_activation(pre[j], self.children@[j], start.spawner, start.origin)
                    } else {
                        self.children@[j] == pre[j]
                    },
                forall|j: int| i <= j < n ==> #[trigger] self.children@[j] == pre[j],
                forall|j: int| 0 <= j < n ==> (#[trigger] self.children@[j]).wf(),
            decreases n - i,
        {
            let ghost before = self.children@;
            let mut slot = self.children[i];
            if !slot.visible && done < count {
                let sx = random_sample();
                let sy = random_sample();
                slot.activate(&self.spawner, self.origin, sx, sy);
                proof {
                    lemma_activated_wf(pre[i as int], start.spawner, start.origin, sx, sy);
                }
                self.children.set(i, slot);
                done += 1;
            }
            proof {
                lemma_counts_prefix(before, self.children@, i as int);
            }
            i += 1;
        }
        done
    }

    /// Checks the pool's invariant.
    pub fn is_wf(&self) -> (r: bool)
        ensures
            r == self.wf(),
    {
        if self.spawner.rate == 0 || self.spawner.particle_lifetime == 0 {
            return false;
        }
        if self.timer.period != self.spawner.rate || self.timer.elapsed >= self.timer.period {
            return false;
        }
        let n = self.children.len();
        let mut i: usize = 0;
        while i < n
            invariant
                i <= n,
                n == self.children@.len(),
                forall|j: int| 0 <= j < i ==> (#[trigger] self.children@[j]).wf(),
            decreases n - i,
        {
            if !self.children[i].is_wf() {
                return false;
            }
            i += 1;
        }
        true
    }

    /// The number of active slots.
    pub fn count_active(&self) -> (r: usize)
        ensures
            r == active_count(self.children@),
            r <= self.children@.len(),
    {
        let n = self.children.len();
        let mut i: usize = 0;
        let mut r: usize = 0;
        while i < n
            invariant
                i <= n,
                n == self.children@.len(),
                r == active_before(self.children@, i as int),
                r <= i,
            decreases n - i,
        {
            if self.children[i].visible {
                r += 1;
            }
            i += 1;
        }
        r
    }

    /// The renderable record of every slot, in slot order. Records whose
    /// `visible` is false are not to be drawn.
    pub fn render(&self) -> (r: Vec<Renderable>)
        ensures
            r@.len() == self.children@.len(),
            forall|i: int| 0 <= i < r@.len() ==> #[trigger] r@[i] == self.children@[i].renderable_spec(),
    {
        let n = self.children.len();
        let mut out: Vec<Renderable> = Vec::new();
        let mut i: usize = 0;
        while i < n
            invariant
                i <= n,
                n == self.children@.len(),
                out@.len() == i,
                forall|j: int| 0 <= j < i ==> #[trigger] out@[j] == self.children@[j].renderable_spec(),
            decreases n - i,
        {
            out.push(self.children[i].renderable());
            i += 1;
        }
        out
    }
}

/// Creates the pool of a spawner, sized for the bursts that can be alive at
/// once with ten percent headroom, every slot inactive. Fails on a zero rate, on a zero lifetime,
/// and on a pool too large to address, in that order.
pub fn spawn_particle_spawner(spawner: ParticleSpawner, origin: Vec2) -> (r: Result<
    ParticlePool,
    ConfigError,
>)
    ensures
        match r {
            Ok(pool) => {
                &&& spawner.error_spec().is_none()
                &&& pool.spawner == spawner
                &&& pool.origin == origin
                &&& pool.timer == (ParticleSpawnerTimer { elapsed: 0, period: spawner.rate })
                &&& all_spawned(pool.children@, spawner, origin, spawner.pool_size_spec())
                &&& pool.wf()
                &&& pool.settled()
            },
            Err(e) => spawner.error_spec() == Some(e),
        },
{
    match spawner.pool_size() {
        Ok(count) => ParticlePool::with_slots(spawner, origin, count),
        Err(e) => Err(e),
    }
}

/// Advances the emission timer by `delta` ticks and, for every period
/// boundary crossed, activates one burst of inactive slots.
pub fn emit_particles(pool: &mut ParticlePool, delta: u64)
    requires
        old(pool).wf(),
    ensures
        final(pool).timer == old(pool).timer.ticked(delta),
        emitted(
            old(pool).children@,
            final(pool).children@,
            old(pool).spawner,
            old(pool).origin,
            old(pool).demand(delta),
        ),
        final(pool).spawner == old(pool).spawner,
        final(pool).origin == old(pool).origin,
        final(pool).wf(),
{
    let ghost pre = pool.children@;
    let ghost demand = pool.demand(delta);
    let fired: u64 = pool.timer.tick(delta);
    let burst: u128 = pool.spawner.amount_per_burst as u128;
    assert(fired * burst <= 0xffff_ffff_ffff_ffff * 0xffff_ffff_ffff_ffff) by (nonlinear_arith)
        requires
            0 <= fired <= 0xffff_ffff_ffff_ffff,
            0 <= burst <= 0xffff_ffff_ffff_ffff,
    ;
    let wanted: u128 = (fired as u128) * burst;
    let n = pool.children.len();
    let count: usize = if wanted > n as u128 {
        n
    } else {
        wanted as usize
    };
    pool.activate_inactive(count);
    proof {
        assert(wanted == demand);
        assert forall|i: int| 0 <= i < pre.len() implies is_chosen(pre, i, count as int)
            == is_chosen(pre, i, demand) by {
            lemma_counts(pre, i);
        }
    }
}

/// Animates every slot of the pool by `delta` ticks.
pub fn update_particles(pool: &mut ParticlePool, delta: u64)
    requires
        old(pool).wf(),
    ensures
        animated(old(pool).children@, final(pool).children@, delta),
        final(pool).spawner == old(pool).spawner,
        final(pool).timer == old(pool).timer,
        final(pool).origin == old(pool).origin,
        final(pool).wf(),
        final(pool).settled(),
{
    let ghost pre = pool.children@;
    let ghost start = *pool;
    let n = pool.children.len();
    let mut i: usize = 0;
    while i < n
        invariant
            i <= n,
            n == pre.len(),
            pool.children@.len() == n,
            pool.spawner == start.spawner,
            pool.timer == start.timer,
            pool.origin == start.origin,
            start.wf(),
            pre == start.children@,
            forall|j: int| 0 <= j < i ==> #[trigger] pool.children@[j] == pre[j].stepped(delta),
            forall|j: int| i <= j < n ==> #[trigger] pool.children@[j] == pre[j],
        decreases n - i,
    {
        let mut slot = pool.children[i];
        slot.step(delta);
        pool.children.set(i, slot);
        i += 1;
    }
    proof {
        assert forall|j: int| 0 <= j < n implies (#[trigger] pool.children@[j]).wf() && !pool.children@[j].just_spawned by {
            lemma_stepped_wf(pre[j], delta);
        }
    }
}

} // verus!
