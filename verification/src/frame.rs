//! The per-frame update pass and what holds of it.

use crate::particle::Particle;
use crate::pool::{
    active_before, active_count, emit_particles, emitted, inactive_before, inactive_count,
    is_chosen, lemma_activated_wf, lemma_counts, lemma_stepped_wf, update_particles,
    ParticlePool,
};
use crate::spawner::{lemma_tick_zero, ParticleSpawner};
use crate::interp::Vec2;
use vstd::prelude::*;

verus! {

/// `post` is `pre` activated at some sampled position and then taken
/// through its first frame, in which it keeps its start values.
pub open spec fn is_first_frame(
    pre: Particle,
    post: Particle,
    spawner: ParticleSpawner,
    origin: Vec2,
    delta: u64,
) -> bool {
    exists|sx: u32, sy: u32|
        post == (#[trigger] pre.activated(spawner, origin, sx, sy)).stepped(delta)
}

/// `post` is `pre` one frame of `delta` ticks later. The timer has ticked;
/// the inactive slots that the bursts of this frame chose have been
/// activated; every other slot has been animated. A slot that runs out in
/// this frame is not reused before the next one.
pub open spec fn frame(pre: ParticlePool, post: ParticlePool, delta: u64) -> bool {
    &&& post.spawner == pre.spawner
    &&& post.origin == pre.origin
    &&& post.timer == pre.timer.ticked(delta)
    &&& post.children@.len() == pre.children@.len()
    &&& forall|i: int|
        #![trigger post.children@[i]]
        0 <= i < pre.children@.len() ==> if is_chosen(pre.children@, i, pre.demand(delta)) {
            is_first_frame(pre.children@[i], post.children@[i], pre.spawner, pre.origin, delta)
        } else {
            post.children@[i] == pre.children@[i].stepped(delta)
        }
}

/// Runs one frame on one pool: emission first, then animation of every
/// slot. Slots emitted in this frame start to age in the next one.
pub fn update(pool: &mut ParticlePool, delta: u64)
    requires
        old(pool).wf(),
    ensures
        frame(*old(pool), *final(pool), delta),
        final(pool).wf(),
        final(pool).settled(),
        delta == 0 && old(pool).settled() ==> final(pool).children@ == old(pool).children@
            && final(pool).timer == old(pool).timer,
{
    let ghost pre = *pool;
    emit_particles(pool, delta);
    let ghost mid = *pool;
    update_particles(pool, delta);
    proof {
        let n = pre.children@.len() as int;
        let count = pre.demand(delta);
        assert forall|i: int| 0 <= i < n implies if is_chosen(pre.children@, i, count) {
            is_first_frame(
                pre.children@[i],
                #[trigger] pool.children@[i],
                pre.spawner,
                pre.origin,
                delta,
            )
        } else {
            pool.children@[i] == pre.children@[i].stepped(delta)
        } by {
            let m = mid.children@[i];
            assert(pool.children@[i] == m.stepped(delta));
            if is_chosen(pre.children@, i, count) {
                let (sx, sy) = choose|sx: u32, sy: u32|
                    m == #[trigger] pre.children@[i].activated(pre.spawner, pre.origin, sx, sy);
                assert(pool.children@[i] == pre.children@[i].activated(
                    pre.spawner,
                    pre.origin,
                    sx,
                    sy,
                ).stepped(delta));
            }
        }
        if delta == 0 && pre.settled() {
            lemma_frame_zero(pre, *pool);
        }
    }
}

/// Runs one frame on every pool, in order. Pools do not affect each other.
pub fn update_all(pools: &mut Vec<ParticlePool>, delta: u64)
    requires
        forall|k: int| 0 <= k < old(pools)@.len() ==> (#[trigger] old(pools)@[k]).wf(),
    ensures
        final(pools)@.len() == old(pools)@.len(),
        forall|k: int|
            0 <= k < old(pools)@.len() ==> frame(old(pools)@[k], #[trigger] final(pools)@[k], delta),
        forall|k: int| 0 <= k < final(pools)@.len() ==> (#[trigger] final(pools)@[k]).wf(),
        forall|k: int| 0 <= k < final(pools)@.len() ==> (#[trigger] final(pools)@[k]).settled(),
{
    let ghost pre = pools@;
    let n = pools.len();
    let mut k: usize = 0;
    while k < n
        invariant
            k <= n,
            n == pre.len(),
            pools@.len() == n,
            forall|j: int| 0 <= j < n ==> (#[trigger] pre[j]).wf(),
            forall|j: int| 0 <= j < k ==> frame(pre[j], #[trigger] pools@[j], delta),
            forall|j: int| 0 <= j < k ==> (#[trigger] pools@[j]).wf(),
            forall|j: int| 0 <= j < k ==> (#[trigger] pools@[j]).settled(),
            forall|j: int| k <= j < n ==> #[trigger] pools@[j] == pre[j],
        decreases n - k,
    {
        update(&mut pools[k], delta);
        k += 1;
    }
}

/// Animation never activates a slot and never moves the clock of an inactive
/// one; it deactivates a slot only when the slot's clock has run out; and a
/// well-formed slot that is still active afterwards has time left.
pub proof fn lemma_slot_transitions(p: Particle, delta: u64)
    ensures
        !p.visible ==> p.stepped(delta) == p,
        p.visible && !p.stepped(delta).visible ==> p.stepped(delta).lifetime.finished(),
        p.wf() && p.stepped(delta).visible ==> !p.stepped(delta).lifetime.finished(),
        p.stepped(delta).visible ==> p.visible,
{
}

/// A slot without a velocity curve keeps its position through every frame.
pub proof fn lemma_static_position(p: Particle, delta: u64)
    requires
        p.velocity_curve.is_none(),
    ensures
        p.stepped(delta).position == p.position,
{
}

/// A frame of zero ticks leaves a well-formed slot as it is, unless the
/// slot still carries the mark of the frame it was emitted in.
pub proof fn lemma_step_zero(p: Particle)
    requires
        p.wf(),
        !p.just_spawned,
    ensures
        p.stepped(0) == p,
{
    if p.visible {
        let a = p.aged(0);
        assert(a == p);
        let b = a.resized().recolored();
        assert(b == p);
        if p.velocity_curve.is_some() {
            let v = p.velocity();
            assert((v.x as int) * 0 == 0 && (-(v.x as int)) * 0 == 0);
            assert((v.y as int) * 0 == 0 && (-(v.y as int)) * 0 == 0);
            assert(b.moved(0).position == p.position);
        }
    }
}

/// A frame of zero ticks changes nothing in a pool that is between frames:
/// the timer does not fire, no slot is activated, and every slot keeps its
/// clock, its flags, its position, its size and its colour.
pub proof fn lemma_frame_zero(pre: ParticlePool, post: ParticlePool)
    requires
        pre.wf(),
        pre.settled(),
        frame(pre, post, 0),
    ensures
        post.children@ == pre.children@,
        post.timer == pre.timer,
        post.spawner == pre.spawner,
        post.origin == pre.origin,
{
    lemma_tick_zero(pre.timer);
    assert(pre.demand(0) == 0) by (nonlinear_arith)
        requires
            pre.demand(0) == pre.timer.fires(0) * pre.spawner.amount_per_burst,
            pre.timer.fires(0) == 0,
    ;
    assert forall|i: int| 0 <= i < pre.children@.len() implies post.children@[i]
        == pre.children@[i] by {
        lemma_counts(pre.children@, i);
        lemma_step_zero(pre.children@[i]);
    }
    assert(post.children@ =~= pre.children@);
}

/// A demand for `count` activations activates exactly as many slots as are
/// asked for, or all inactive slots where fewer are inactive, and each of
/// them once: the number of active slots grows by that amount.
pub proof fn lemma_emitted_count(
    pre: Seq<Particle>,
    post: Seq<Particle>,
    spawner: ParticleSpawner,
    origin: Vec2,
    count: int,
)
    requires
        0 <= count,
        emitted(pre, post, spawner, origin, count),
    ensures
        active_count(post) == active_count(pre) + if count <= inactive_count(pre) {
            count
        } else {
            inactive_count(pre)
        },
        active_count(post) <= post.len(),
{
    lemma_emitted_prefix(pre, post, spawner, origin, count, pre.len() as int);
    lemma_counts(post, post.len() as int);
}

proof fn lemma_emitted_prefix(
    pre: Seq<Particle>,
    post: Seq<Particle>,
    spawner: ParticleSpawner,
    origin: Vec2,
    count: int,
    i: int,
)
    requires
        0 <= count,
        0 <= i <= pre.len(),
        emitted(pre, post, spawner, origin, count),
    ensures
        active_before(post, i) == active_before(pre, i) + if count <= inactive_before(pre, i) {
            count
        } else {
            inactive_before(pre, i)
        },
    decreases i,
{
    if i > 0 {
        lemma_emitted_prefix(pre, post, spawner, origin, count, i - 1);
        lemma_counts(pre, i - 1);
        let q = post[i - 1];
        if is_chosen(pre, i - 1, count) {
            assert(q.visible);
        } else {
            assert(q == pre[i - 1]);
        }
    }
}

/// A frame never changes the number of slots, and the number of active
/// slots never exceeds it.
pub proof fn lemma_pool_is_fixed(pre: ParticlePool, post: ParticlePool, delta: u64)
    requires
        frame(pre, post, delta),
    ensures
        post.children@.len() == pre.children@.len(),
        0 <= active_count(post.children@) <= pre.children@.len(),
{
    lemma_counts(post.children@, post.children@.len() as int);
}

/// The pool of a valid spawner holds the smallest whole number of bursts
/// that covers `1.1 * particle_lifetime / rate`.
pub proof fn lemma_pool_headroom(spawner: ParticleSpawner)
    requires
        spawner.valid(),
    ensures
        10 * spawner.rate * spawner.batches_spec() >= 11 * spawner.particle_lifetime,
        10 * spawner.rate * (spawner.batches_spec() - 1) < 11 * spawner.particle_lifetime,
        spawner.batches_spec() >= 1,
{
    let d = 10 * spawner.rate;
    let n = 11 * spawner.particle_lifetime;
    let q = (n + d - 1) / d;
    assert(d * q <= n + d - 1 < d * q + d && q >= 1) by (nonlinear_arith)
        requires
            d > 0,
            n > 0,
            q == (n + d - 1) / d,
    ;
    assert(d * (q - 1) == d * q - d) by (nonlinear_arith);
}

/// Every active slot runs on the spawner's lifetime and was emitted less
/// than `slack` ticks after the timer last fired.
pub open spec fn follows_timer(pool: ParticlePool, slack: u64) -> bool {
    forall|i: int|
        0 <= i < pool.children@.len() && (#[trigger] pool.children@[i]).visible ==> {
            &&& pool.children@[i].lifetime.duration == pool.spawner.particle_lifetime
            &&& pool.timer.elapsed < pool.children@[i].lifetime.elapsed + slack
        }
}

proof fn lemma_all_inactive(s: Seq<Particle>, i: int)
    requires
        0 <= i <= s.len(),
        forall|j: int| 0 <= j < s.len() ==> !(#[trigger] s[j]).visible,
    ensures
        inactive_before(s, i) == i,
    decreases i,
{
    if i > 0 {
        lemma_all_inactive(s, i - 1);
    }
}

/// Sparse emission loses no particle. Where frames are at most `slack`
/// ticks long and particles die at least two such frames before the next
/// burst is due, a frame fires at most one burst, that burst finds every
/// slot inactive and activates the first `amount_per_burst` slots, and the
/// pool is in the same situation after the frame. A pool that has just been
/// created is in that situation.
pub proof fn lemma_sparse_emission(pre: ParticlePool, post: ParticlePool, delta: u64, slack: u64)
    requires
        pre.wf(),
        pre.settled(),
        follows_timer(pre, slack),
        delta <= slack,
        pre.spawner.particle_lifetime + 2 * slack <= pre.spawner.rate,
        frame(pre, post, delta),
    ensures
        post.wf(),
        post.settled(),
        follows_timer(post, slack),
        pre.timer.fires(delta) == 0 || pre.timer.fires(delta) == 1,
        pre.timer.fires(delta) == 1 ==> inactive_count(pre.children@) == pre.children@.len(),
        pre.timer.fires(delta) == 1 ==> forall|i: int|
            0 <= i < post.children@.len() ==> ((#[trigger] post.children@[i]).visible <==> i
                < pre.spawner.amount_per_burst),
{
    let t = pre.timer.elapsed as int;
    let r = pre.spawner.rate as int;
    let d = delta as int;
    let life = pre.spawner.particle_lifetime as int;
    let burst = pre.spawner.amount_per_burst as int;
    let f = pre.timer.fires(delta);
    let n = pre.children@.len() as int;
    assert((f == 0 && (t + d) % r == t + d) || (f == 1 && (t + d) % r == t + d - r))
        by (nonlinear_arith)
        requires
            0 <= t < r,
            0 <= d,
            t + d < 2 * r,
            f == (t + d) / r,
    ;
    assert(pre.demand(delta) == f * burst);
    assert(f == 1 ==> f * burst == burst) by (nonlinear_arith);
    assert(f == 0 ==> f * burst == 0) by (nonlinear_arith);
    if f == 1 {
        assert forall|j: int| 0 <= j < n implies !(#[trigger] pre.children@[j]).visible by {
            let p = pre.children@[j];
            if p.visible {
                assert(p.wf());
                assert(t < p.lifetime.elapsed + slack);
                assert(false);
            }
        }
        lemma_all_inactive(pre.children@, n);
    }
    assert forall|i: int| 0 <= i < n implies {
        &&& (#[trigger] post.children@[i]).wf()
        &&& !post.children@[i].just_spawned
        &&& post.children@[i].visible ==> {
            &&& post.children@[i].lifetime.duration == life
            &&& post.timer.elapsed < post.children@[i].lifetime.elapsed + slack
        }
        &&& f == 1 ==> (post.children@[i].visible <==> i < burst)
    } by {
        let p = pre.children@[i];
        let q = post.children@[i];
        assert(p.wf());
        assert(!p.just_spawned);
        lemma_counts(pre.children@, i);
        if f == 1 {
            lemma_all_inactive(pre.children@, i);
        }
        if is_chosen(pre.children@, i, pre.demand(delta)) {
            let (sx, sy) = choose|sx: u32, sy: u32|
                q == (#[trigger] p.activated(pre.spawner, pre.origin, sx, sy)).stepped(delta);
            let a = p.activated(pre.spawner, pre.origin, sx, sy);
            lemma_activated_wf(p, pre.spawner, pre.origin, sx, sy);
            lemma_stepped_wf(a, delta);
            assert(f == 1);
        } else {
            assert(q == p.stepped(delta));
            lemma_stepped_wf(p, delta);
        }
    }
}

} // verus!
