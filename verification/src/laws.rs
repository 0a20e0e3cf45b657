//! Properties of the update rule, stated and proved over the spec model.

use crate::field::{
    div_toward_zero, eff_vel_x, eff_vel_y, in_motion_band, incs_bounded, incs_from_generator,
    lemma_div_toward_zero_bound, lemma_div_toward_zero_multiple, particle_bounded, run_seq,
    seq_bounded, sum_vel_x, sum_vel_y, tick_seq, vel_x_after, vel_y_after, Particle, INC_LIMIT,
    MAG_LIMIT, X_INC_BOUND, Y_INC_BOUND,
};
use vstd::arithmetic::div_mod::lemma_div_of0;
use vstd::prelude::*;

verus! {

/// The running velocity sums of a bounded field over a bounded round grow
/// at most linearly with the prefix length.
pub proof fn lemma_sum_vel_bounds(ps: Seq<Particle>, incs: Seq<(i64, i64)>, i: int)
    requires
        seq_bounded(ps),
        incs_bounded(incs),
        incs.len() == ps.len(),
        -1 <= i < ps.len(),
    ensures
        -((i + 1) * (MAG_LIMIT + INC_LIMIT)) <= sum_vel_x(ps, incs, i) <= (i + 1) * (MAG_LIMIT
            + INC_LIMIT),
        -((i + 1) * (MAG_LIMIT + INC_LIMIT)) <= sum_vel_y(ps, incs, i) <= (i + 1) * (MAG_LIMIT
            + INC_LIMIT),
    decreases i + 1,
{
    let b: int = MAG_LIMIT + INC_LIMIT;
    if i < 0 {
        assert(sum_vel_x(ps, incs, i) == 0);
        assert(sum_vel_y(ps, incs, i) == 0);
    } else {
        lemma_sum_vel_bounds(ps, incs, i - 1);
        assert(particle_bounded(ps[i]));
        assert(-INC_LIMIT <= incs[i].0 <= INC_LIMIT);
        assert(-INC_LIMIT <= incs[i].1 <= INC_LIMIT);
        assert(-b <= vel_x_after(ps, incs, i) <= b);
        assert(-b <= vel_y_after(ps, incs, i) <= b);
        assert((i + 1) * b == i * b + b) by (nonlinear_arith);
    }
}

/// Determinism: the field after any run is a function of the starting
/// particles and the drawn increments alone, so two runs from the same
/// state over the same increments end in the same state.
pub proof fn lemma_run_deterministic(
    ps1: Seq<Particle>,
    ps2: Seq<Particle>,
    rounds1: Seq<Seq<(i64, i64)>>,
    rounds2: Seq<Seq<(i64, i64)>>,
)
    requires
        ps1 == ps2,
        rounds1 == rounds2,
    ensures
        run_seq(ps1, rounds1) == run_seq(ps2, rounds2),
{
}

/// Velocity accumulates: after one tick, each velocity component is the
/// old component plus exactly the increment drawn for that particle.
pub proof fn lemma_velocity_accumulates(ps: Seq<Particle>, incs: Seq<(i64, i64)>, i: int)
    requires
        seq_bounded(ps),
        incs_bounded(incs),
        incs.len() == ps.len(),
        0 <= i < ps.len(),
    ensures
        tick_seq(ps, incs)[i].vx == ps[i].vx + incs[i].0,
        tick_seq(ps, incs)[i].vy == ps[i].vy + incs[i].1,
{
    assert(particle_bounded(ps[i]));
    assert(-INC_LIMIT <= incs[i].0 <= INC_LIMIT);
    assert(-INC_LIMIT <= incs[i].1 <= INC_LIMIT);
}

/// Velocity deltas stay within the generator's bounds: over a round the
/// field's own generator could have drawn, one tick changes each velocity
/// component by less than the drawn bound in magnitude.
pub proof fn lemma_velocity_delta_within_generator_bounds(
    ps: Seq<Particle>,
    incs: Seq<(i64, i64)>,
    i: int,
)
    requires
        seq_bounded(ps),
        incs_from_generator(incs),
        incs.len() == ps.len(),
        0 <= i < ps.len(),
    ensures
        -X_INC_BOUND <= tick_seq(ps, incs)[i].vx - ps[i].vx < X_INC_BOUND,
        -Y_INC_BOUND <= tick_seq(ps, incs)[i].vy - ps[i].vy < Y_INC_BOUND,
{
    assert(incs_bounded(incs));
    lemma_velocity_accumulates(ps, incs, i);
}

/// Freeze at the band: a particle whose vertical position starts a tick
/// outside the open band keeps both coordinates through that tick, though
/// its velocity still accumulates.
pub proof fn lemma_frozen_outside_band(ps: Seq<Particle>, incs: Seq<(i64, i64)>, i: int)
    requires
        incs.len() == ps.len(),
        0 <= i < ps.len(),
        !in_motion_band(ps[i].y as int),
    ensures
        tick_seq(ps, incs)[i].x == ps[i].x,
        tick_seq(ps, incs)[i].y == ps[i].y,
{
}

/// Cumulative mean: a particle that starts a tick inside the band is
/// displaced by exactly the mean (truncated toward zero) of the updated
/// velocities of all particles up to and including itself.
pub proof fn lemma_displacement_is_prefix_mean(ps: Seq<Particle>, incs: Seq<(i64, i64)>, i: int)
    requires
        seq_bounded(ps),
        incs_bounded(incs),
        incs.len() == ps.len(),
        0 <= i < ps.len(),
        in_motion_band(ps[i].y as int),
    ensures
        tick_seq(ps, incs)[i].x == ps[i].x + div_toward_zero(sum_vel_x(ps, incs, i), i + 1),
        tick_seq(ps, incs)[i].y == ps[i].y + div_toward_zero(sum_vel_y(ps, incs, i), i + 1),
{
    lemma_sum_vel_bounds(ps, incs, i);
    lemma_div_toward_zero_bound(sum_vel_x(ps, incs, i), i + 1, MAG_LIMIT + INC_LIMIT);
    lemma_div_toward_zero_bound(sum_vel_y(ps, incs, i), i + 1, MAG_LIMIT + INC_LIMIT);
    assert(particle_bounded(ps[i]));
}

/// The running sum of a prefix whose updated velocities all equal `v` is
/// the prefix length times `v`.
proof fn lemma_sum_of_equal_velocities_x(ps: Seq<Particle>, incs: Seq<(i64, i64)>, i: int, v: int)
    requires
        incs.len() == ps.len(),
        -1 <= i < ps.len(),
        forall|j: int| 0 <= j <= i ==> vel_x_after(ps, incs, j) == v,
    ensures
        sum_vel_x(ps, incs, i) == (i + 1) * v,
    decreases i + 1,
{
    if i < 0 {
        assert((i + 1) * v == 0) by (nonlinear_arith)
            requires
                i == -1,
        ;
    } else {
        lemma_sum_of_equal_velocities_x(ps, incs, i - 1, v);
        assert(sum_vel_x(ps, incs, i - 1) == ((i - 1) + 1) * v);
        assert(((i - 1) + 1) * v == i * v) by (nonlinear_arith);
        assert(vel_x_after(ps, incs, i) == v);
        assert(sum_vel_x(ps, incs, i) == sum_vel_x(ps, incs, i - 1) + vel_x_after(ps, incs, i));
        assert((i + 1) * v == i * v + v) by (nonlinear_arith);
    }
}

/// The mean of equal values is that value: when every updated horizontal
/// velocity of the prefix equals `v`, the effective horizontal velocity of
/// particle `i` is exactly `v`.
pub proof fn lemma_equal_velocities_mean_x(ps: Seq<Particle>, incs: Seq<(i64, i64)>, i: int, v: int)
    requires
        incs.len() == ps.len(),
        0 <= i < ps.len(),
        forall|j: int| 0 <= j <= i ==> vel_x_after(ps, incs, j) == v,
    ensures
        eff_vel_x(ps, incs, i) == v,
{
    lemma_sum_of_equal_velocities_x(ps, incs, i, v);
    lemma_div_toward_zero_multiple(v, i + 1);
}

/// Every particle of the field is at rest: both velocity components zero.
pub open spec fn at_rest(ps: Seq<Particle>) -> bool {
    forall|i: int| 0 <= i < ps.len() ==> (#[trigger] ps[i]).vx == 0 && ps[i].vy == 0
}

/// Every increment of the round is zero.
pub open spec fn zero_round(incs: Seq<(i64, i64)>) -> bool {
    forall|i: int| 0 <= i < incs.len() ==> (#[trigger] incs[i]).0 == 0 && incs[i].1 == 0
}

/// A tick over zero increments leaves a field at rest exactly as it was,
/// whether or not a particle sits inside the band.
pub proof fn lemma_tick_at_rest(ps: Seq<Particle>, incs: Seq<(i64, i64)>)
    requires
        at_rest(ps),
        zero_round(incs),
        incs.len() == ps.len(),
    ensures
        tick_seq(ps, incs) == ps,
{
    assert forall|i: int| 0 <= i < ps.len() implies tick_seq(ps, incs)[i] == ps[i] by {
        lemma_sum_vel_is_zero(ps, incs, i);
        lemma_div_of0(i + 1);
        assert(eff_vel_x(ps, incs, i) == 0);
        assert(eff_vel_y(ps, incs, i) == 0);
    }
    assert(tick_seq(ps, incs) =~= ps);
}

/// The running sums of a field at rest over a zero round vanish.
proof fn lemma_sum_vel_is_zero(ps: Seq<Particle>, incs: Seq<(i64, i64)>, i: int)
    requires
        at_rest(ps),
        zero_round(incs),
        incs.len() == ps.len(),
        i < ps.len(),
    ensures
        sum_vel_x(ps, incs, i) == 0,
        sum_vel_y(ps, incs, i) == 0,
    decreases i + 1,
{
    if i >= 0 {
        lemma_sum_vel_is_zero(ps, incs, i - 1);
    }
}

/// Zero increments move nothing: however many ticks are run, a field at
/// rest keeps every position (and stays at rest), regardless of the band.
pub proof fn lemma_zero_increments_leave_unchanged(ps: Seq<Particle>, rounds: Seq<Seq<(i64, i64)>>)
    requires
        at_rest(ps),
        forall|k: int|
            0 <= k < rounds.len() ==> zero_round(#[trigger] rounds[k]) && rounds[k].len()
                == ps.len(),
    ensures
        run_seq(ps, rounds) == ps,
    decreases rounds.len(),
{
    if rounds.len() > 0 {
        lemma_tick_at_rest(ps, rounds[0]);
        lemma_zero_increments_leave_unchanged(ps, rounds.drop_first());
        assert(forall|k: int|
            0 <= k < rounds.drop_first().len() ==> #[trigger] rounds.drop_first()[k] == rounds[k
                + 1]);
    }
}

} // verus!

