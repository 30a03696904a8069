use particle_pool::clock::{Clock, Progress, TICKS_PER_SECOND};
use particle_pool::interp::{lerp, lerp_checked, lerp_color, lerp_vec2, Rgba, Vec2};
use particle_pool::particle::{displaced, spawn_coordinate};
use particle_pool::spawner::{ConfigError, ParticleSpawner, ParticleSpawnerTimer};

fn frac(num: u64, den: u64) -> Progress {
    Progress::new(num, den).unwrap()
}

#[test]
fn progress_new_accepts_only_fractions_in_unit_interval() {
    assert_eq!(Progress::new(2, 5), Some(Progress { num: 2, den: 5 }));
    assert_eq!(Progress::new(5, 5), Some(Progress { num: 5, den: 5 }));
    assert_eq!(Progress::new(0, 1), Some(Progress::zero()));
    assert_eq!(Progress::new(1, 1), Some(Progress::one()));
    assert_eq!(Progress::new(6, 5), None);
    assert_eq!(Progress::new(0, 0), None);
}

#[test]
fn clock_starts_at_zero() {
    let c = Clock::new(1_000);
    assert_eq!(c.elapsed, 0);
    assert_eq!(c.duration, 1_000);
    assert!(!c.is_finished());
    assert_eq!(c.progress(), Progress { num: 0, den: 1_000 });
}

#[test]
fn clock_advance_saturates_at_duration() {
    let mut c = Clock::new(1_000);
    c.advance(400);
    assert_eq!(c.elapsed, 400);
    assert!(!c.is_finished());
    c.advance(600);
    assert_eq!(c.elapsed, 1_000);
    assert!(c.is_finished());
    c.advance(u64::MAX);
    assert_eq!(c.elapsed, 1_000);
    assert_eq!(c.duration, 1_000);
    assert_eq!(c.progress(), Progress { num: 1_000, den: 1_000 });
}

#[test]
fn clock_advance_by_huge_delta_does_not_wrap() {
    let mut c = Clock::new(u64::MAX);
    c.advance(u64::MAX - 1);
    assert_eq!(c.elapsed, u64::MAX - 1);
    c.advance(u64::MAX);
    assert_eq!(c.elapsed, u64::MAX);
    assert!(c.is_finished());
}

#[test]
fn clock_progress_never_decreases() {
    let mut c = Clock::new(2_500);
    let mut last = c.progress();
    for delta in [0u64, 1, 999, 0, 1_000, 499, 1, 10_000] {
        c.advance(delta);
        let now = c.progress();
        assert_eq!(now.den, last.den);
        assert!(now.num >= last.num);
        assert!(now.num <= now.den);
        last = now;
    }
    assert_eq!(last, Progress { num: 2_500, den: 2_500 });
}

#[test]
fn clock_of_zero_duration_is_always_finished() {
    let mut c = Clock::new(0);
    assert!(c.is_finished());
    assert_eq!(c.progress(), Progress { num: 1, den: 1 });
    c.advance(7);
    assert!(c.is_finished());
    assert_eq!(c.elapsed, 0);
}

#[test]
fn clock_reset_restarts_with_new_duration() {
    let mut c = Clock::expired(300);
    assert!(c.is_finished());
    c.reset(900);
    assert_eq!(c, Clock { elapsed: 0, duration: 900 });
    assert!(!c.is_finished());
}

#[test]
fn lerp_at_zero_is_start_and_at_one_is_end() {
    for (a, b) in [(20_000i64, 1_000i64), (-5, 17), (i64::MIN, i64::MAX), (i64::MAX, i64::MIN), (3, 3)] {
        assert_eq!(lerp(a, b, frac(0, 7)), a);
        assert_eq!(lerp(a, b, frac(7, 7)), b);
        assert_eq!(lerp(a, b, Progress::zero()), a);
        assert_eq!(lerp(a, b, Progress::one()), b);
    }
}

#[test]
fn lerp_is_affine_where_the_steps_are_whole() {
    let a: i64 = -4_000;
    let b: i64 = 6_000;
    for n in 0..=10u64 {
        assert_eq!(lerp(a, b, frac(n, 10)), a + 1_000 * (n as i64));
    }
    for n in 0..=10u64 {
        assert_eq!(lerp(b, a, frac(n, 10)), b - 1_000 * (n as i64));
    }
}

#[test]
fn lerp_rounds_the_step_towards_the_start() {
    assert_eq!(lerp(0, 10, frac(1, 3)), 3);
    assert_eq!(lerp(0, 10, frac(2, 3)), 6);
    assert_eq!(lerp(10, 0, frac(1, 3)), 7);
    assert_eq!(lerp(10, 0, frac(2, 3)), 4);
    assert_eq!(lerp(-10, 0, frac(1, 3)), -7);
}

#[test]
fn lerp_runs_past_the_end_above_one() {
    assert_eq!(lerp(0, 10, Progress { num: 2, den: 1 }), 20);
    assert_eq!(lerp(0, 10, Progress { num: 3, den: 2 }), 15);
    assert_eq!(lerp(10, 0, Progress { num: 2, den: 1 }), -10);
    assert_eq!(lerp(-5, 5, Progress { num: 7, den: 2 }), 30);
    assert_eq!(lerp(0, 3, Progress { num: 4, den: 3 }), 4);
    assert_eq!(lerp(0, i64::MAX, Progress { num: 1, den: 1 }), i64::MAX);
    assert_eq!(lerp(i64::MAX - 20, i64::MAX - 10, Progress { num: 2, den: 1 }), i64::MAX);
    assert_eq!(
        lerp_vec2(Vec2 { x: 0, y: 10 }, Vec2 { x: 10, y: 0 }, Progress { num: 2, den: 1 }),
        Vec2 { x: 20, y: -10 }
    );
    assert_eq!(
        lerp_color(
            Rgba { r: 0, g: 10, b: 5, a: 100 },
            Rgba { r: 10, g: 0, b: 5, a: 200 },
            Progress { num: 2, den: 1 }
        ),
        Rgba { r: 20, g: -10, b: 5, a: 300 }
    );
}

#[test]
fn lerp_checked_tells_when_the_result_does_not_fit() {
    assert_eq!(lerp_checked(0, 10, Progress { num: 2, den: 1 }), Some(20));
    assert_eq!(lerp_checked(10, 0, Progress { num: 3, den: 2 }), Some(-5));
    assert_eq!(lerp_checked(20_000, 1_000, Progress { num: 2, den: 5 }), Some(12_400));
    assert_eq!(lerp_checked(0, 10, Progress { num: 1, den: 0 }), None);
    assert_eq!(lerp_checked(0, i64::MAX, Progress { num: 2, den: 1 }), None);
    assert_eq!(lerp_checked(0, i64::MIN, Progress { num: 2, den: 1 }), None);
    assert_eq!(lerp_checked(i64::MAX - 20, i64::MAX - 10, Progress { num: 2, den: 1 }), Some(i64::MAX));
    assert_eq!(lerp_checked(i64::MAX - 20, i64::MAX - 10, Progress { num: 21, den: 10 }), None);
    assert_eq!(lerp_checked(i64::MIN + 20, i64::MIN + 10, Progress { num: 2, den: 1 }), Some(i64::MIN));
    assert_eq!(lerp_checked(i64::MIN + 20, i64::MIN + 10, Progress { num: 21, den: 10 }), None);
    assert_eq!(lerp_checked(i64::MIN, i64::MAX, Progress { num: u64::MAX, den: 1 }), None);
    assert_eq!(lerp_checked(5, 5, Progress { num: u64::MAX, den: 1 }), Some(5));
}

#[test]
fn lerp_spans_the_whole_range_without_overflow() {
    assert_eq!(lerp(i64::MIN, i64::MAX, frac(1, 2)), -1);
    assert_eq!(lerp(i64::MAX, i64::MIN, frac(1, 2)), 0);
    assert_eq!(lerp(i64::MIN, i64::MAX, frac(u64::MAX, u64::MAX)), i64::MAX);
}

#[test]
fn size_curve_at_two_fifths() {
    assert_eq!(lerp(20_000, 1_000, frac(2, 5)), 12_400);
    let mut c = Clock::new(5 * TICKS_PER_SECOND / 2);
    c.advance(TICKS_PER_SECOND);
    assert_eq!(lerp(20_000, 1_000, c.progress()), 12_400);
}

#[test]
fn lerp_vec2_is_componentwise() {
    let a = Vec2 { x: 0, y: 100 };
    let b = Vec2 { x: 1_000, y: -100 };
    assert_eq!(lerp_vec2(a, b, frac(1, 4)), Vec2 { x: 250, y: 50 });
    assert_eq!(lerp_vec2(a, b, frac(0, 4)), a);
    assert_eq!(lerp_vec2(a, b, frac(4, 4)), b);
}

#[test]
fn lerp_color_treats_each_channel_alone() {
    let a = Rgba { r: 1_000, g: 0, b: 500, a: 1_000 };
    let b = Rgba { r: 0, g: 1_000, b: 500, a: 0 };
    assert_eq!(lerp_color(a, b, frac(1, 4)), Rgba { r: 750, g: 250, b: 500, a: 750 });
    assert_eq!(lerp_color(a, b, frac(0, 1)), a);
    assert_eq!(lerp_color(a, b, frac(1, 1)), b);
}

#[test]
fn spawn_coordinate_covers_the_square() {
    assert_eq!(spawn_coordinate(0, 1_000, 0), -1_000);
    assert_eq!(spawn_coordinate(0, 1_000, 0x8000_0000), 0);
    assert_eq!(spawn_coordinate(0, 1_000, 0xC000_0000), 500);
    assert_eq!(spawn_coordinate(0, 1_000, 0x4000_0000), -500);
    assert_eq!(spawn_coordinate(0, 1_000, u32::MAX), 999);
    assert_eq!(spawn_coordinate(250, 1_000, 0), -750);
    assert_eq!(spawn_coordinate(250, 0, 12_345), 250);
    assert_eq!(spawn_coordinate(0, -1_000, 0), 1_000);
}

#[test]
fn spawn_coordinate_saturates() {
    assert_eq!(spawn_coordinate(i64::MAX, 1_000, u32::MAX), i64::MAX);
    assert_eq!(spawn_coordinate(i64::MIN, 1_000, 0), i64::MIN);
    assert_eq!(spawn_coordinate(0, i64::MIN, 0), i64::MAX);
}

#[test]
fn displaced_is_velocity_times_seconds() {
    assert_eq!(displaced(100, 2_000, TICKS_PER_SECOND / 2), 1_100);
    assert_eq!(displaced(100, -2_000, TICKS_PER_SECOND / 2), -900);
    assert_eq!(displaced(100, 2_000, 0), 100);
    assert_eq!(displaced(0, 3, TICKS_PER_SECOND / 2), 1);
    assert_eq!(displaced(0, -3, TICKS_PER_SECOND / 2), -1);
    assert_eq!(displaced(i64::MAX, i64::MAX, u64::MAX), i64::MAX);
    assert_eq!(displaced(i64::MIN, i64::MIN, u64::MAX), i64::MIN);
}

fn config(rate: u64, burst: usize, lifetime: u64) -> ParticleSpawner {
    ParticleSpawner {
        rate,
        amount_per_burst: burst,
        position_variance: 0,
        particle_lifetime: lifetime,
        particle_size: None,
        particle_velocity: None,
        particle_color: None,
    }
}

#[test]
fn pool_size_is_rounded_up_batches_times_burst() {
    // 1.1 * 1.0 / 0.5 = 2.2, rounded up to 3 bursts of 3.
    assert_eq!(config(500_000_000, 3, 1_000_000_000).pool_size(), Ok(9));
    // 1.1 * 1.0 / 1.1 = 1 exactly.
    assert_eq!(config(1_100, 4, 1_000).pool_size(), Ok(4));
    // 1.1 * 1.0 / 1.0 = 1.1, rounded up to 2.
    assert_eq!(config(1_000, 4, 1_000).pool_size(), Ok(8));
    // 1.1 * 10 / 1 = 11 exactly.
    assert_eq!(config(1, 2, 10).pool_size(), Ok(22));
    assert_eq!(config(1_000, 0, 1_000).pool_size(), Ok(0));
    assert_eq!(config(u64::MAX, 1, 1).pool_size(), Ok(1));
}

#[test]
fn pool_size_rejects_degenerate_configurations() {
    assert_eq!(config(0, 3, 1_000).pool_size(), Err(ConfigError::ZeroRate));
    assert_eq!(config(1_000, 3, 0).pool_size(), Err(ConfigError::ZeroLifetime));
    assert_eq!(config(0, 3, 0).pool_size(), Err(ConfigError::ZeroRate));
    assert_eq!(config(1, usize::MAX, u64::MAX).pool_size(), Err(ConfigError::PoolTooLarge));
    assert_eq!(config(1, 1, u64::MAX).pool_size(), Err(ConfigError::PoolTooLarge));
    assert_eq!(config(1, 0, u64::MAX).pool_size(), Ok(0));
}

#[test]
fn timer_fires_once_per_period_crossed() {
    assert_eq!(ParticleSpawnerTimer::new(0), None);
    let mut t = ParticleSpawnerTimer::new(500).unwrap();
    assert_eq!(t.tick(0), 0);
    assert_eq!(t, ParticleSpawnerTimer { elapsed: 0, period: 500 });
    assert_eq!(t.tick(499), 0);
    assert_eq!(t.tick(1), 1);
    assert_eq!(t.elapsed, 0);
    assert_eq!(t.tick(1_750), 3);
    assert_eq!(t.elapsed, 250);
    assert_eq!(t.tick(250), 1);
    assert_eq!(t.elapsed, 0);
    let mut one = ParticleSpawnerTimer::new(1).unwrap();
    assert_eq!(one.tick(u64::MAX), u64::MAX);
    assert_eq!(one.elapsed, 0);
    let mut big = ParticleSpawnerTimer { elapsed: u64::MAX - 1, period: u64::MAX };
    assert_eq!(big.tick(u64::MAX), 1);
    assert_eq!(big.elapsed, u64::MAX - 1);
}
