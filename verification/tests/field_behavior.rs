use drift_field::field::{Field, Particle, MAG_LIMIT, PARTICLE_COUNT};

fn zero_round(n: usize) -> Vec<(i64, i64)> {
    vec![(0, 0); n]
}

fn resting(x: i64, y: i64) -> Particle {
    Particle { x, y, vx: 0, vy: 0 }
}

#[test]
fn initial_positions_follow_arithmetic_sequence() {
    let f = Field::new(7);
    assert_eq!(f.len(), PARTICLE_COUNT);
    for i in 0..f.len() {
        let p = f.particle(i);
        assert_eq!(p.x, i as i64 * 1800 - 380000);
        assert_eq!(p.y, 0);
        assert_eq!(p.vx, 0);
        assert_eq!(p.vy, 0);
    }
    assert_eq!(f.particle(0).x, -380000);
    assert_eq!(f.particle(1).x, -378200);
    assert_eq!(f.particle(399).x, 338200);
}

#[test]
fn initial_positions_small_field() {
    let f = Field::new_with_count(3, 1);
    assert_eq!(f.len(), 3);
    assert_eq!(f.particle(0).x, -380000);
    assert_eq!(f.particle(1).x, -378200);
    assert_eq!(f.particle(2).x, -376400);
}

#[test]
fn fixed_seed_runs_identically() {
    let mut a = Field::new(12345);
    let mut b = Field::new(12345);
    for _ in 0..25 {
        a.tick();
        b.tick();
    }
    assert_eq!(a.len(), b.len());
    for i in 0..a.len() {
        assert_eq!(a.particle(i), b.particle(i));
    }
}

#[test]
fn different_seeds_diverge() {
    let mut a = Field::new(1);
    let mut b = Field::new(2);
    for _ in 0..25 {
        a.tick();
        b.tick();
    }
    let mut same = true;
    for i in 0..a.len() {
        if a.particle(i) != b.particle(i) {
            same = false;
        }
    }
    assert!(!same);
}

#[test]
fn drawn_increments_stay_within_generator_bounds() {
    let mut f = Field::new_with_count(10, 99);
    f.tick();
    let mut any_nonzero = false;
    for i in 0..f.len() {
        let p = f.particle(i);
        assert!(-500 <= p.vx && p.vx < 500);
        assert!(-1000 <= p.vy && p.vy < 1000);
        if p.vx != 0 || p.vy != 0 {
            any_nonzero = true;
        }
    }
    assert!(any_nonzero);
    let before: Vec<Particle> = (0..f.len()).map(|i| f.particle(i)).collect();
    f.tick();
    for i in 0..f.len() {
        let p = f.particle(i);
        let dvx = p.vx - before[i].vx;
        let dvy = p.vy - before[i].vy;
        assert!(-500 <= dvx && dvx < 500);
        assert!(-1000 <= dvy && dvy < 1000);
    }
}

#[test]
fn velocity_accumulates_by_exactly_the_increment() {
    let mut f = Field::from_particles(vec![resting(0, 0), resting(100, 50)], 3);
    f.tick_with_increments(&vec![(40, -70), (-10, 25)]);
    assert_eq!(f.particle(0).vx, 40);
    assert_eq!(f.particle(0).vy, -70);
    assert_eq!(f.particle(1).vx, -10);
    assert_eq!(f.particle(1).vy, 25);
    f.tick_with_increments(&vec![(1, 2), (3, 4)]);
    assert_eq!(f.particle(0).vx, 41);
    assert_eq!(f.particle(0).vy, -68);
    assert_eq!(f.particle(1).vx, -7);
    assert_eq!(f.particle(1).vy, 29);
}

#[test]
fn frozen_at_or_beyond_upper_band_edge() {
    let mut f = Field::from_particles(vec![resting(5000, 310000)], 0);
    f.tick_with_increments(&vec![(100, 200)]);
    let p = f.particle(0);
    assert_eq!(p.x, 5000);
    assert_eq!(p.y, 310000);
    assert_eq!(p.vx, 100);
    assert_eq!(p.vy, 200);
}

#[test]
fn frozen_at_or_beyond_lower_band_edge() {
    let mut f = Field::from_particles(vec![resting(-7000, -310000)], 0);
    f.tick_with_increments(&vec![(-100, 300)]);
    let p = f.particle(0);
    assert_eq!(p.x, -7000);
    assert_eq!(p.y, -310000);
    assert_eq!(p.vx, -100);
    assert_eq!(p.vy, 300);
}

#[test]
fn moves_just_inside_the_band() {
    let mut f = Field::from_particles(vec![resting(0, 309999)], 0);
    f.tick_with_increments(&vec![(0, -400)]);
    let p = f.particle(0);
    assert_eq!(p.y, 309999 - 400);
    assert_eq!(p.vy, -400);
}

#[test]
fn cumulative_mean_of_equal_increments() {
    let mut f = Field::new_with_count(3, 0);
    f.tick_with_increments(&vec![(1000, 0), (1000, 0), (1000, 0)]);
    assert_eq!(f.particle(0).x, -380000 + 1000);
    assert_eq!(f.particle(1).x, -378200 + 1000);
    assert_eq!(f.particle(2).x, -376400 + 1000);
    for i in 0..3 {
        assert_eq!(f.particle(i).y, 0);
        assert_eq!(f.particle(i).vx, 1000);
        assert_eq!(f.particle(i).vy, 0);
    }
}

#[test]
fn cumulative_mean_of_mixed_increments() {
    let mut f = Field::from_particles(vec![resting(0, 0), resting(0, 0), resting(0, 0)], 0);
    f.tick_with_increments(&vec![(300, 0), (0, 0), (-300, 0)]);
    assert_eq!(f.particle(0).x, 300);
    assert_eq!(f.particle(1).x, 150);
    assert_eq!(f.particle(2).x, 0);
}

#[test]
fn mean_truncates_toward_zero() {
    let mut f = Field::from_particles(vec![resting(0, 0), resting(0, 0)], 0);
    f.tick_with_increments(&vec![(100, 0), (99, 0)]);
    assert_eq!(f.particle(0).x, 100);
    assert_eq!(f.particle(1).x, 99);

    let mut g = Field::from_particles(vec![resting(0, 0), resting(0, 0)], 0);
    g.tick_with_increments(&vec![(-100, 0), (-99, 0)]);
    assert_eq!(g.particle(0).x, -100);
    assert_eq!(g.particle(1).x, -99);
}

#[test]
fn zero_increments_keep_every_position() {
    let mut f = Field::new_with_count(3, 5);
    let initial: Vec<Particle> = (0..3).map(|i| f.particle(i)).collect();
    for _ in 0..50 {
        f.tick_with_increments(&zero_round(3));
    }
    for i in 0..3 {
        assert_eq!(f.particle(i), initial[i]);
    }
}

#[test]
fn zero_increments_keep_a_frozen_particle_too() {
    let mut f = Field::from_particles(vec![resting(12, 320000), resting(-12, 0)], 9);
    for _ in 0..20 {
        f.tick_with_increments(&zero_round(2));
    }
    assert_eq!(f.particle(0), resting(12, 320000));
    assert_eq!(f.particle(1), resting(-12, 0));
}

#[test]
fn random_startup_seed_is_below_bound() {
    let (f, seed) = Field::new_random();
    assert!(seed < 100000);
    assert_eq!(f.len(), PARTICLE_COUNT);
    let again = Field::new(seed);
    for i in 0..f.len() {
        assert_eq!(f.particle(i), again.particle(i));
    }
}

#[test]
fn limits_guard_detects_out_of_range_state() {
    let ok = Field::new(4);
    assert!(ok.is_within_limits());
    let bad = Field::from_particles(vec![resting(MAG_LIMIT + 1, 0)], 0);
    assert!(!bad.is_within_limits());
}

#[test]
fn empty_field_ticks_without_effect() {
    let mut f = Field::new_with_count(0, 8);
    f.tick();
    f.tick_with_increments(&zero_round(0));
    assert_eq!(f.len(), 0);
}

#[test]
fn tick_keeps_the_particle_count() {
    let mut f = Field::new(77);
    for _ in 0..10 {
        f.tick();
    }
    assert_eq!(f.len(), PARTICLE_COUNT);
}
