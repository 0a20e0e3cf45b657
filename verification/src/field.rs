//! The particle field and its per-tick update rule.
//!
//! All coordinates and velocities are integers in thousandths of a drawing
//! unit ("milli-units"): the spread step of 1.8 units is 1800, the freeze
//! band of (-310, 310) units is (-310000, 310000), and a horizontal
//! increment drawn from [-0.5, 0.5) units is an integer in [-500, 500).

use vstd::arithmetic::div_mod::{
    lemma_div_is_ordered, lemma_div_multiples_vanish, lemma_div_pos_is_pos,
};
use vstd::prelude::*;

verus! {

/// Number of particles in the standard field.
pub const PARTICLE_COUNT: usize = 400;

/// Horizontal spread between neighbouring particles at creation, milli-units.
pub const X_STEP_MILLI: i64 = 1800;

/// Horizontal offset of the whole field at creation, milli-units.
pub const X_OFFSET_MILLI: i64 = 380000;

/// Half of the window height, milli-units.
pub const Y_BASE_MILLI: i64 = 300000;

/// Padding applied to the freeze band; negative, so the band is wider than
/// the window: a particle moves only while -310000 < y < 310000.
pub const Y_PADDING_MILLI: i64 = -10000;

/// A horizontal random increment lies in [-X_INC_BOUND, X_INC_BOUND).
pub const X_INC_BOUND: i64 = 500;

/// A vertical random increment lies in [-Y_INC_BOUND, Y_INC_BOUND).
pub const Y_INC_BOUND: i64 = 1000;

/// Largest coordinate or velocity magnitude a well-formed field may hold.
pub const MAG_LIMIT: i64 = 1_000_000_000_000;

/// Largest increment magnitude the update rule accepts.
pub const INC_LIMIT: i64 = 1_000_000;

/// Largest particle count a well-formed field may hold.
pub const COUNT_LIMIT: usize = 1_000_000;

/// One drifting point: position and accumulated velocity, milli-units.
#[derive(Clone, Copy, Debug, PartialEq, Eq, Structural)]
pub struct Particle {
    pub x: i64,
    pub y: i64,
    pub vx: i64,
    pub vy: i64,
}

/// Integer division that rounds toward zero, as the effective velocity is
/// a mean truncated toward zero.
pub open spec fn div_toward_zero(a: int, d: int) -> int {
    if a >= 0 {
        a / d
    } else {
        -((-a) / d)
    }
}

/// Rounding toward zero keeps a quotient within any bound that covers the
/// dividend: if |a| <= d * b then |a / d| <= b.
pub proof fn lemma_div_toward_zero_bound(a: int, d: int, b: int)
    requires
        0 < d,
        0 <= b,
        -(d * b) <= a <= d * b,
    ensures
        -b <= div_toward_zero(a, d) <= b,
{
    if a >= 0 {
        lemma_div_pos_is_pos(a, d);
        lemma_div_is_ordered(a, d * b, d);
        lemma_div_multiples_vanish(b, d);
    } else {
        lemma_div_pos_is_pos(-a, d);
        lemma_div_is_ordered(-a, d * b, d);
        lemma_div_multiples_vanish(b, d);
    }
}

/// A multiple of the divisor divides exactly, whatever its sign.
pub proof fn lemma_div_toward_zero_multiple(v: int, d: int)
    requires
        0 < d,
    ensures
        div_toward_zero(d * v, d) == v,
{
    if v >= 0 {
        assert(d * v >= 0) by (nonlinear_arith)
            requires
                d > 0,
                v >= 0,
        ;
        lemma_div_multiples_vanish(v, d);
    } else {
        assert(d * v < 0) by (nonlinear_arith)
            requires
                d > 0,
                v < 0,
        ;
        assert(-(d * v) == d * (-v)) by (nonlinear_arith);
        lemma_div_multiples_vanish(-v, d);
    }
}

/// The horizontal velocity of particle `i` once its increment is applied.
pub open spec fn vel_x_after(ps: Seq<Particle>, incs: Seq<(i64, i64)>, i: int) -> int {
    ps[i].vx + incs[i].0
}

/// The vertical velocity of particle `i` once its increment is applied.
pub open spec fn vel_y_after(ps: Seq<Particle>, incs: Seq<(i64, i64)>, i: int) -> int {
    ps[i].vy + incs[i].1
}

/// Running sum of the updated horizontal velocities of particles `0..=i`.
pub open spec fn sum_vel_x(ps: Seq<Particle>, incs: Seq<(i64, i64)>, i: int) -> int
    decreases i + 1,
{
    if i < 0 {
        0
    } else {
        sum_vel_x(ps, incs, i - 1) + vel_x_after(ps, incs, i)
    }
}

/// Running sum of the updated vertical velocities of particles `0..=i`.
pub open spec fn sum_vel_y(ps: Seq<Particle>, incs: Seq<(i64, i64)>, i: int) -> int
    decreases i + 1,
{
    if i < 0 {
        0
    } else {
        sum_vel_y(ps, incs, i - 1) + vel_y_after(ps, incs, i)
    }
}

/// Effective horizontal velocity of particle `i`: the mean of the updated
/// horizontal velocities of all particles up to and including it.
pub open spec fn eff_vel_x(ps: Seq<Particle>, incs: Seq<(i64, i64)>, i: int) -> int {
    div_toward_zero(sum_vel_x(ps, incs, i), i + 1)
}

/// Effective vertical velocity of particle `i`.
pub open spec fn eff_vel_y(ps: Seq<Particle>, incs: Seq<(i64, i64)>, i: int) -> int {
    div_toward_zero(sum_vel_y(ps, incs, i), i + 1)
}

/// A particle moves only while its vertical position lies strictly inside
/// the padded band.
pub open spec fn in_motion_band(y: int) -> bool {
    -Y_BASE_MILLI + Y_PADDING_MILLI < y && y < Y_BASE_MILLI - Y_PADDING_MILLI
}

/// Particle `i` after one tick: velocity always accumulates its increment;
/// position advances by the effective velocity only inside the band, and
/// the band is judged on the position the tick started from.
pub open spec fn tick_particle(ps: Seq<Particle>, incs: Seq<(i64, i64)>, i: int) -> Particle {
    let p = ps[i];
    if in_motion_band(p.y as int) {
        Particle {
            x: (p.x + eff_vel_x(ps, incs, i)) as i64,
            y: (p.y + eff_vel_y(ps, incs, i)) as i64,
            vx: vel_x_after(ps, incs, i) as i64,
            vy: vel_y_after(ps, incs, i) as i64,
        }
    } else {
        Particle {
            x: p.x,
            y: p.y,
            vx: vel_x_after(ps, incs, i) as i64,
            vy: vel_y_after(ps, incs, i) as i64,
        }
    }
}

/// The whole field after one tick.
pub open spec fn tick_seq(ps: Seq<Particle>, incs: Seq<(i64, i64)>) -> Seq<Particle> {
    Seq::new(ps.len(), |i: int| tick_particle(ps, incs, i))
}

/// The field after a sequence of ticks, one round of increments per tick.
pub open spec fn run_seq(ps: Seq<Particle>, rounds: Seq<Seq<(i64, i64)>>) -> Seq<Particle>
    decreases rounds.len(),
{
    if rounds.len() == 0 {
        ps
    } else {
        run_seq(tick_seq(ps, rounds[0]), rounds.drop_first())
    }
}

/// Every coordinate and velocity of the particle is within the magnitude
/// limit, so one tick cannot overflow the machine integers.
pub open spec fn particle_bounded(p: Particle) -> bool {
    &&& -MAG_LIMIT <= p.x <= MAG_LIMIT
    &&& -MAG_LIMIT <= p.y <= MAG_LIMIT
    &&& -MAG_LIMIT <= p.vx <= MAG_LIMIT
    &&& -MAG_LIMIT <= p.vy <= MAG_LIMIT
}

/// A field the update rule accepts: not too many particles, all bounded.
pub open spec fn seq_bounded(ps: Seq<Particle>) -> bool {
    &&& ps.len() <= COUNT_LIMIT
    &&& forall|i: int| 0 <= i < ps.len() ==> particle_bounded(#[trigger] ps[i])
}

/// Every increment of the round is within the accepted magnitude.
pub open spec fn incs_bounded(incs: Seq<(i64, i64)>) -> bool {
    forall|i: int|
        0 <= i < incs.len() ==> -INC_LIMIT <= (#[trigger] incs[i]).0 <= INC_LIMIT
            && -INC_LIMIT <= incs[i].1 <= INC_LIMIT
}

/// Every increment of the round is within the bounds the generator draws
/// from: horizontal in [-500, 500), vertical in [-1000, 1000).
pub open spec fn incs_from_generator(incs: Seq<(i64, i64)>) -> bool {
    forall|i: int|
        0 <= i < incs.len() ==> -X_INC_BOUND <= (#[trigger] incs[i]).0 < X_INC_BOUND
            && -Y_INC_BOUND <= incs[i].1 < Y_INC_BOUND
}

/// Truncating division toward zero on machine integers.
fn div_toward_zero_i64(a: i64, d: i64) -> (r: i64)
    requires
        0 < d,
        -0x4000_0000_0000_0000 < a < 0x4000_0000_0000_0000,
    ensures
        r == div_toward_zero(a as int, d as int),
{
    if a >= 0 {
        let q: u64 = (a as u64) / (d as u64);
        proof {
            lemma_div_pos_is_pos(a as int, d as int);
            vstd::arithmetic::div_mod::lemma_div_nonincreasing(a as int, d as int);
        }
        q as i64
    } else {
        let m: i64 = -a;
        let q: u64 = (m as u64) / (d as u64);
        proof {
            lemma_div_pos_is_pos(m as int, d as int);
            vstd::arithmetic::div_mod::lemma_div_nonincreasing(m as int, d as int);
        }
        -(q as i64)
    }
}

/// The ordered particles together with the seeded generator that drives
/// every per-tick increment.
pub struct Field {
    pub particles: Vec<Particle>,
    pub rng: rand::rngs::StdRng,
}

impl Field {
    /// The field is small enough and its values bounded enough for one
    /// tick to be free of overflow.
    pub open spec fn wf(&self) -> bool {
        seq_bounded(self.particles@)
    }

    /// Build a field of `count` particles spread along the horizontal
    /// axis, at rest, with a generator seeded from `seed`.
    pub fn new_with_count(count: usize, seed: u64) -> (f: Field)
        requires
            count <= COUNT_LIMIT,
        ensures
            f.particles@.len() == count,
            forall|i: int|
                0 <= i < count ==> (#[trigger] f.particles@[i]) == (Particle {
                    x: (i * X_STEP_MILLI - X_OFFSET_MILLI) as i64,
                    y: 0i64,
                    vx: 0i64,
                    vy: 0i64,
                }),
            f.wf(),
    {
        let mut particles: Vec<Particle> = Vec::new();
        let mut i: usize = 0;
        while i < count
            invariant
                i <= count,
                count <= COUNT_LIMIT,
                particles@.len() == i,
                forall|j: int|
                    0 <= j < i ==> (#[trigger] particles@[j]) == (Particle {
                        x: (j * X_STEP_MILLI - X_OFFSET_MILLI) as i64,
                        y: 0i64,
                        vx: 0i64,
                        vy: 0i64,
                    }),
            decreases count - i,
        {
            let x: i64 = (i as i64) * X_STEP_MILLI - X_OFFSET_MILLI;
            particles.push(Particle { x, y: 0, vx: 0, vy: 0 });
            i = i + 1;
        }
        proof {
            assert forall|j: int| 0 <= j < count implies particle_bounded(#[trigger] particles@[j]) by {
                assert(particles@[j].x == j * X_STEP_MILLI - X_OFFSET_MILLI);
                assert(j * X_STEP_MILLI <= COUNT_LIMIT * X_STEP_MILLI) by (nonlinear_arith)
                    requires
                        0 <= j <= COUNT_LIMIT,
                ;
                assert(j * X_STEP_MILLI >= 0) by (nonlinear_arith)
                    requires
                        j >= 0,
                ;
            }
        }
        Field { particles, rng: crate::rng::seed_rng(seed) }
    }

    /// The standard field of the sketch: 400 particles, so that particle
    /// `i` starts at `i * 1.8 - 380.0` units on the horizontal axis.
    pub fn new(seed: u64) -> (f: Field)
        ensures
            f.particles@.len() == PARTICLE_COUNT,
            forall|i: int|
                0 <= i < PARTICLE_COUNT ==> (#[trigger] f.particles@[i]) == (Particle {
                    x: (i * X_STEP_MILLI - X_OFFSET_MILLI) as i64,
                    y: 0i64,
                    vx: 0i64,
                    vy: 0i64,
                }),
            f.wf(),
    {
        Field::new_with_count(PARTICLE_COUNT, seed)
    }

    /// The standard field seeded from the process-random generator, as the
    /// sketch seeds itself at startup; the drawn seed is returned beside
    /// the field so a run can be reproduced.
    pub fn new_random() -> (r: (Field, u64))
        ensures
            r.1 < 100000,
            r.0.particles@.len() == PARTICLE_COUNT,
            forall|i: int|
                0 <= i < PARTICLE_COUNT ==> (#[trigger] r.0.particles@[i]) == (Particle {
                    x: (i * X_STEP_MILLI - X_OFFSET_MILLI) as i64,
                    y: 0i64,
                    vx: 0i64,
                    vy: 0i64,
                }),
            r.0.wf(),
    {
        let seed = crate::rng::draw_seed();
        (Field::new(seed), seed)
    }

    /// Build a field over a chosen particle state, with a generator seeded
    /// from `seed`.
    pub fn from_particles(particles: Vec<Particle>, seed: u64) -> (f: Field)
        ensures
            f.particles@ == particles@,
    {
        Field { particles, rng: crate::rng::seed_rng(seed) }
    }

    /// Number of particles in the field.
    pub fn len(&self) -> (n: usize)
        ensures
            n == self.particles@.len(),
    {
        self.particles.len()
    }

    /// The particle at index `i`.
    pub fn particle(&self, i: usize) -> (p: Particle)
        requires
            i < self.particles@.len(),
        ensures
            p == self.particles@[i as int],
    {
        self.particles[i]
    }

    /// One tick over explicitly given increments, applied in index order:
    /// particle `i` accumulates its increment into its velocity, and, if
    /// its vertical position lies strictly inside the padded band, advances
    /// by the mean of the updated velocities of particles `0..=i`.
    pub fn tick_with_increments(&mut self, incs: &Vec<(i64, i64)>)
        requires
            old(self).wf(),
            incs@.len() == old(self).particles@.len(),
            incs_bounded(incs@),
        ensures
            final(self).particles@ == tick_seq(old(self).particles@, incs@),
    {
        let ghost ps0 = old(self).particles@;
        let n = self.particles.len();
        let mut sum_x: i64 = 0;
        let mut sum_y: i64 = 0;
        let mut i: usize = 0;
        while i < n
            invariant
                self.particles@.len() == n,
                n == ps0.len(),
                incs@.len() == n,
                seq_bounded(ps0),
                incs_bounded(incs@),
                i <= n,
                sum_x == sum_vel_x(ps0, incs@, i as int - 1),
                sum_y == sum_vel_y(ps0, incs@, i as int - 1),
                -((i as int) * (MAG_LIMIT + INC_LIMIT)) <= sum_x <= (i as int) * (MAG_LIMIT
                    + INC_LIMIT),
                -((i as int) * (MAG_LIMIT + INC_LIMIT)) <= sum_y <= (i as int) * (MAG_LIMIT
                    + INC_LIMIT),
                forall|j: int| 0 <= j < i ==> self.particles@[j] == tick_particle(ps0, incs@, j),
                forall|j: int| i <= j < n ==> self.particles@[j] == ps0[j],
            decreases n - i,
        {
            proof {
                assert(particle_bounded(ps0[i as int]));
                assert(self.particles@[i as int] == ps0[i as int]);
                assert(-INC_LIMIT <= incs@[i as int].0 <= INC_LIMIT);
                assert(-INC_LIMIT <= incs@[i as int].1 <= INC_LIMIT);
            }
            let p = self.particles[i];
            let inc = incs[i];
            let nvx = p.vx + inc.0;
            let nvy = p.vy + inc.1;
            let ghost b: int = MAG_LIMIT + INC_LIMIT;
            proof {
                assert(nvx == vel_x_after(ps0, incs@, i as int));
                assert(nvy == vel_y_after(ps0, incs@, i as int));
                assert(b == 1_000_001_000_000);
                assert(-b <= nvx <= b);
                assert(-b <= nvy <= b);
                assert((i as int + 1) * b <= 1_000_000 * b && -(1_000_000 * b) <= -((i as int + 1)
                    * b)) by (nonlinear_arith)
                    requires
                        0 <= i as int + 1 <= 1_000_000,
                        b >= 0,
                ;
                assert(-((i as int + 1) * b) <= sum_x + nvx <= (i as int + 1) * b)
                    by (nonlinear_arith)
                    requires
                        -((i as int) * b) <= sum_x <= (i as int) * b,
                        -b <= nvx <= b,
                ;
                assert(-((i as int + 1) * b) <= sum_y + nvy <= (i as int + 1) * b)
                    by (nonlinear_arith)
                    requires
                        -((i as int) * b) <= sum_y <= (i as int) * b,
                        -b <= nvy <= b,
                ;
                assert(1_000_000 * b == 1_000_001_000_000_000_000);
            }
            sum_x = sum_x + nvx;
            sum_y = sum_y + nvy;
            let ex = div_toward_zero_i64(sum_x, (i as i64) + 1);
            let ey = div_toward_zero_i64(sum_y, (i as i64) + 1);
            proof {
                lemma_div_toward_zero_bound(
                    sum_x as int,
                    i as int + 1,
                    (MAG_LIMIT + INC_LIMIT) as int,
                );
                lemma_div_toward_zero_bound(
                    sum_y as int,
                    i as int + 1,
                    (MAG_LIMIT + INC_LIMIT) as int,
                );
            }
            let np: Particle;
            if -Y_BASE_MILLI + Y_PADDING_MILLI < p.y && p.y < Y_BASE_MILLI - Y_PADDING_MILLI {
                np = Particle { x: p.x + ex, y: p.y + ey, vx: nvx, vy: nvy };
            } else {
                np = Particle { x: p.x, y: p.y, vx: nvx, vy: nvy };
            }
            proof {
                assert(np == tick_particle(ps0, incs@, i as int));
            }
            self.particles[i] = np;
            i = i + 1;
        }
        proof {
            assert(self.particles@ =~= tick_seq(ps0, incs@));
        }
    }

    /// One tick of the sketch: draw one horizontal and one vertical
    /// increment per particle from the field's own generator, in index
    /// order, then apply the update rule over them.  Whatever the
    /// generator returned, the new state is the update rule applied to
    /// some round of increments within the generator's bounds.
    pub fn tick(&mut self)
        requires
            old(self).wf(),
        ensures
            final(self).particles@.len() == old(self).particles@.len(),
            exists|incs: Seq<(i64, i64)>|
                incs.len() == old(self).particles@.len() && #[trigger] incs_from_generator(incs)
                    && final(self).particles@ == tick_seq(old(self).particles@, incs),
    {
        let ghost ps0 = old(self).particles@;
        let n = self.particles.len();
        let mut incs: Vec<(i64, i64)> = Vec::new();
        let mut i: usize = 0;
        while i < n
            invariant
                i <= n,
                incs@.len() == i,
                incs_from_generator(incs@),
                self.particles@ == ps0,
                n == ps0.len(),
                seq_bounded(ps0),
            decreases n - i,
        {
            let dx = crate::rng::gen_range_i64(&mut self.rng, -X_INC_BOUND, X_INC_BOUND);
            let dy = crate::rng::gen_range_i64(&mut self.rng, -Y_INC_BOUND, Y_INC_BOUND);
            incs.push((dx, dy));
            i = i + 1;
        }
        proof {
            assert(incs_bounded(incs@));
        }
        self.tick_with_increments(&incs);
        proof {
            assert(incs@.len() == ps0.len() && incs_from_generator(incs@)
                && self.particles@ == tick_seq(ps0, incs@));
        }
    }

    /// Whether the field is still within the magnitude limits the update
    /// rule accepts; an unverified caller can guard its tick calls on this.
    pub fn is_within_limits(&self) -> (r: bool)
        ensures
            r == self.wf(),
    {
        let n = self.particles.len();
        if n > COUNT_LIMIT {
            return false;
        }
        let mut i: usize = 0;
        while i < n
            invariant
                i <= n,
                n == self.particles@.len(),
                forall|j: int| 0 <= j < i ==> particle_bounded(#[trigger] self.particles@[j]),
            decreases n - i,
        {
            let p = self.particles[i];
            if !(-MAG_LIMIT <= p.x && p.x <= MAG_LIMIT && -MAG_LIMIT <= p.y && p.y <= MAG_LIMIT
                && -MAG_LIMIT <= p.vx && p.vx <= MAG_LIMIT && -MAG_LIMIT <= p.vy && p.vy
                <= MAG_LIMIT) {
                return false;
            }
            i = i + 1;
        }
        true
    }
}

} // verus!
