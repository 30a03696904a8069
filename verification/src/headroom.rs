//! Why the headroom of the pool suffices while emission is steady.

use crate::frame::{frame, lemma_pool_headroom};
use crate::particle::Particle;
use crate::pool::{
    active_before, inactive_before, inactive_count, is_chosen, lemma_activated_wf, lemma_counts,
    lemma_stepped_wf, ParticlePool,
};
use vstd::prelude::*;

verus! {

/// How many of the first `i` slots are active and were emitted `k` bursts
/// ago, where `ages[j]` counts the bursts fired since slot `j` was emitted.
pub open spec fn class_count(s: Seq<Particle>, ages: Seq<int>, k: int, i: int) -> int
    decreases i,
{
    if i <= 0 {
        0
    } else {
        class_count(s, ages, k, i - 1) + if s[i - 1].visible && ages[i - 1] == k {
            1int
        } else {
            0int
        }
    }
}

/// The sizes of the classes `0 .. kmax` added up.
pub open spec fn classes_sum(s: Seq<Particle>, ages: Seq<int>, kmax: int, i: int) -> int
    decreases kmax,
{
    if kmax <= 0 {
        0
    } else {
        classes_sum(s, ages, kmax - 1, i) + class_count(s, ages, kmax - 1, i)
    }
}

/// The situation of a pool under steady emission, with `ages` as witness:
/// every active slot runs on the spawner's lifetime and was emitted less
/// than `slack` ticks after the burst it belongs to was due, and no burst
/// has more active slots than `amount_per_burst`.
pub open spec fn steady(pool: ParticlePool, ages: Seq<int>, slack: u64) -> bool {
    &&& ages.len() == pool.children@.len()
    &&& forall|i: int|
        0 <= i < pool.children@.len() && (#[trigger] pool.children@[i]).visible ==> {
            &&& ages[i] >= 0
            &&& pool.children@[i].lifetime.duration == pool.spawner.particle_lifetime
            &&& ages[i] * pool.spawner.rate + pool.timer.elapsed - slack
                < pool.children@[i].lifetime.elapsed
            &&& pool.children@[i].lifetime.elapsed <= ages[i] * pool.spawner.rate
                + pool.timer.elapsed
        }
    &&& forall|k: int|
        0 <= k ==> #[trigger] class_count(pool.children@, ages, k, pool.children@.len() as int)
            <= pool.spawner.amount_per_burst
}

proof fn lemma_classes_sum_step(s: Seq<Particle>, ages: Seq<int>, kmax: int, i: int)
    requires
        0 <= kmax,
        0 <= i,
    ensures
        classes_sum(s, ages, kmax, i + 1) == classes_sum(s, ages, kmax, i) + if s[i].visible && 0
            <= ages[i] < kmax {
            1int
        } else {
            0int
        },
    decreases kmax,
{
    if kmax > 0 {
        lemma_classes_sum_step(s, ages, kmax - 1, i);
    }
}

proof fn lemma_active_is_classes_sum(s: Seq<Particle>, ages: Seq<int>, kmax: int, i: int)
    requires
        0 <= kmax,
        0 <= i <= s.len(),
        forall|j: int| 0 <= j < s.len() && (#[trigger] s[j]).visible ==> 0 <= ages[j] < kmax,
    ensures
        active_before(s, i) == classes_sum(s, ages, kmax, i),
    decreases i,
{
    if i > 0 {
        lemma_active_is_classes_sum(s, ages, kmax, i - 1);
        lemma_classes_sum_step(s, ages, kmax, i - 1);
    } else {
        lemma_classes_sum_empty(s, ages, kmax);
    }
}

proof fn lemma_classes_sum_empty(s: Seq<Particle>, ages: Seq<int>, kmax: int)
    ensures
        classes_sum(s, ages, kmax, 0) == 0,
    decreases kmax,
{
    if kmax > 0 {
        lemma_classes_sum_empty(s, ages, kmax - 1);
    }
}

proof fn lemma_classes_sum_bounded(s: Seq<Particle>, ages: Seq<int>, kmax: int, i: int, b: int)
    requires
        0 <= kmax,
        forall|k: int| 0 <= k ==> #[trigger] class_count(s, ages, k, i) <= b,
    ensures
        classes_sum(s, ages, kmax, i) <= kmax * b,
    decreases kmax,
{
    if kmax > 0 {
        lemma_classes_sum_bounded(s, ages, kmax - 1, i, b);
        assert(class_count(s, ages, kmax - 1, i) <= b);
        assert((kmax - 1) * b + b == kmax * b) by (nonlinear_arith);
    } else {
        assert(kmax * b == 0) by (nonlinear_arith)
            requires
                kmax == 0,
        ;
    }
}

proof fn lemma_class_count_mono(
    post: Seq<Particle>,
    next: Seq<int>,
    k: int,
    pre: Seq<Particle>,
    ages: Seq<int>,
    k2: int,
    i: int,
)
    requires
        0 <= i <= post.len(),
        forall|j: int|
            0 <= j < post.len() && (#[trigger] post[j]).visible && next[j] == k ==> pre[j].visible
                && ages[j] == k2,
    ensures
        class_count(post, next, k, i) <= class_count(pre, ages, k2, i),
    decreases i,
{
    if i > 0 {
        lemma_class_count_mono(post, next, k, pre, ages, k2, i - 1);
        assert(post[i - 1].visible && next[i - 1] == k ==> pre[i - 1].visible && ages[i - 1]
            == k2);
    }
}

proof fn lemma_burst_class_bounded(
    post: Seq<Particle>,
    next: Seq<int>,
    k: int,
    pre: Seq<Particle>,
    lo: int,
    width: int,
    i: int,
)
    requires
        0 <= width,
        0 <= i <= post.len(),
        forall|j: int|
            0 <= j < post.len() && (#[trigger] post[j]).visible && next[j] == k ==> !pre[j].visible
                && lo <= inactive_before(pre, j) < lo + width,
    ensures
        class_count(post, next, k, i) <= width,
        class_count(post, next, k, i) <= if inactive_before(pre, i) >= lo {
            inactive_before(pre, i) - lo
        } else {
            0
        },
    decreases i,
{
    if i > 0 {
        lemma_burst_class_bounded(post, next, k, pre, lo, width, i - 1);
        assert(post[i - 1].visible && next[i - 1] == k ==> !pre[i - 1].visible && lo
            <= inactive_before(pre, i - 1) < lo + width);
    }
}

/// The headroom holds under steady emission. Let frames be at most `slack`
/// ticks long, with `slack` no more than a twentieth of the particle
/// lifetime. Then in a pool of the computed size every frame, however many
/// bursts it fires, finds at least as many inactive slots as those bursts
/// ask for, so that nothing is dropped, and the pool is in the same
/// situation after the frame. A pool that has just been created is in that
/// situation, with any ages as witness.
pub proof fn lemma_steady_frame(
    pre: ParticlePool,
    post: ParticlePool,
    delta: u64,
    slack: u64,
    ages: Seq<int>,
) -> (next: Seq<int>)
    requires
        pre.wf(),
        pre.settled(),
        steady(pre, ages, slack),
        pre.children@.len() == pre.spawner.pool_size_spec(),
        delta <= slack,
        20 * slack <= pre.spawner.particle_lifetime,
        frame(pre, post, delta),
    ensures
        post.wf(),
        post.settled(),
        steady(post, next, slack),
        post.children@.len() == post.spawner.pool_size_spec(),
        inactive_count(pre.children@) >= pre.demand(delta),
{
    let t = pre.timer.elapsed as int;
    let r = pre.spawner.rate as int;
    let d = delta as int;
    let life = pre.spawner.particle_lifetime as int;
    let burst = pre.spawner.amount_per_burst as int;
    let m = pre.spawner.batches_spec();
    let f = pre.timer.fires(delta);
    let tq = post.timer.elapsed as int;
    let n = pre.children@.len() as int;
    let ps = pre.children@;
    let qs = post.children@;
    let demand = pre.demand(delta);
    assert(t + d == f * r + tq && 0 <= tq < r && f >= 0) by (nonlinear_arith)
        requires
            0 <= t < r,
            0 <= d,
            f == (t + d) / r,
            tq == (t + d) % r,
    ;
    assert(demand == f * burst);
    lemma_pool_headroom(pre.spawner);
    // The bursts of this frame alone never outnumber the batches of the pool.
    assert(f <= m) by {
        if f > m {
            assert((f - 1) * r >= m * r) by (nonlinear_arith)
                requires
                    f - 1 >= m,
                    r > 0,
            ;
            assert((f - 1) * r == f * r - r) by (nonlinear_arith);
            assert(10 * (m * r) == 10 * r * m) by (nonlinear_arith);
        }
    }
    assert forall|j: int| 0 <= j < n && (#[trigger] ps[j]).visible implies 0 <= ages[j] < m
        - f by {
        let p = ps[j];
        let a = ages[j];
        assert(p.wf());
        assert(p.lifetime.elapsed < life);
        assert(a * r + t - slack < life);
        assert((a + f) * r == a * r + f * r) by (nonlinear_arith);
        assert(10 * ((a + f) * r) < 10 * r * m);
        assert(a + f < m) by (nonlinear_arith)
            requires
                10 * ((a + f) * r) < 10 * r * m,
                r > 0,
        ;
    }
    lemma_active_is_classes_sum(ps, ages, m - f, n);
    lemma_classes_sum_bounded(ps, ages, m - f, n, burst);
    lemma_counts(ps, n);
    assert(n == m * burst);
    assert(m * burst - (m - f) * burst == f * burst) by (nonlinear_arith);
    let next = Seq::new(
        n as nat,
        |i: int|
            if is_chosen(ps, i, demand) {
                f - 1 - inactive_before(ps, i) / burst
            } else {
                ages[i] + f
            },
    );
    assert forall|i: int| 0 <= i < n implies {
        &&& (#[trigger] qs[i]).wf()
        &&& !qs[i].just_spawned
        &&& qs[i].visible ==> {
            &&& next[i] >= 0
            &&& qs[i].lifetime.duration == life
            &&& next[i] * r + tq - slack < qs[i].lifetime.elapsed
            &&& qs[i].lifetime.elapsed <= next[i] * r + tq
            &&& (next[i] < f ==> !ps[i].visible && (f - 1 - next[i]) * burst <= inactive_before(
                ps,
                i,
            ) < (f - 1 - next[i]) * burst + burst)
            &&& (next[i] >= f ==> ps[i].visible && ages[i] == next[i] - f)
        }
    } by {
        let p = ps[i];
        let q = qs[i];
        assert(p.wf());
        assert(!p.just_spawned);
        lemma_counts(ps, i);
        if is_chosen(ps, i, demand) {
            let (sx, sy) = choose|sx: u32, sy: u32|
                q == (#[trigger] p.activated(pre.spawner, pre.origin, sx, sy)).stepped(delta);
            let a = p.activated(pre.spawner, pre.origin, sx, sy);
            lemma_activated_wf(p, pre.spawner, pre.origin, sx, sy);
            lemma_stepped_wf(a, delta);
            let ib = inactive_before(ps, i);
            assert(burst > 0) by (nonlinear_arith)
                requires
                    0 <= ib < f * burst,
                    f >= 0,
                    burst >= 0,
            ;
            let c = ib / burst;
            assert(c * burst <= ib < c * burst + burst && 0 <= c) by (nonlinear_arith)
                requires
                    c == ib / burst,
                    burst > 0,
                    ib >= 0,
            ;
            assert(c <= f - 1) by (nonlinear_arith)
                requires
                    c * burst <= ib,
                    ib < f * burst,
                    burst > 0,
            ;
            let k = f - 1 - c;
            assert(next[i] == k);
            assert(0 <= k * r <= (f - 1) * r) by (nonlinear_arith)
                requires
                    0 <= k <= f - 1,
                    r > 0,
            ;
            assert((f - 1) * r == f * r - r) by (nonlinear_arith);
            assert(q.lifetime.elapsed == 0);
        } else {
            assert(q == p.stepped(delta));
            lemma_stepped_wf(p, delta);
            if q.visible {
                let a = ages[i];
                assert(p.visible);
                assert(q.lifetime.elapsed == p.lifetime.elapsed + d);
                assert((a + f) * r == a * r + f * r) by (nonlinear_arith);
            }
        }
    }
    assert forall|k: int| 0 <= k implies #[trigger] class_count(qs, next, k, n) <= burst by {
        if k < f {
            lemma_burst_class_bounded(qs, next, k, ps, (f - 1 - k) * burst, burst, n);
        } else {
            lemma_class_count_mono(qs, next, k, ps, ages, k - f, n);
            assert(class_count(ps, ages, k - f, n) <= burst);
        }
    }
    next
}

/// A pool without active slots is in the steady situation, whatever the
/// witness.
pub proof fn lemma_steady_at_start(pool: ParticlePool, ages: Seq<int>, slack: u64)
    requires
        ages.len() == pool.children@.len(),
        forall|i: int| 0 <= i < pool.children@.len() ==> !(#[trigger] pool.children@[i]).visible,
    ensures
        steady(pool, ages, slack),
{
    assert forall|k: int| 0 <= k implies #[trigger] class_count(
        pool.children@,
        ages,
        k,
        pool.children@.len() as int,
    ) <= pool.spawner.amount_per_burst by {
        lemma_class_count_empty(pool.children@, ages, k, pool.children@.len() as int);
    }
}

proof fn lemma_class_count_empty(s: Seq<Particle>, ages: Seq<int>, k: int, i: int)
    requires
        0 <= i <= s.len(),
        forall|j: int| 0 <= j < s.len() ==> !(#[trigger] s[j]).visible,
    ensures
        class_count(s, ages, k, i) == 0,
    decreases i,
{
    if i > 0 {
        lemma_class_count_empty(s, ages, k, i - 1);
    }
}

} // verus!
