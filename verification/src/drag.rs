//! Numeric helpers for the drag gesture: the critically-damped follow step
//! that trails the pointer, and the analytic solve of the vertical arc used
//! when a dragged album is tossed onto the queue target.

use vstd::prelude::*;
use crate::geom::{div_trunc, div_trunc64, abs_int, sqrt_floor, isqrt64, COORD_LIMIT};
use crate::anim::{Curve, curve_wf, SCALE_LIMIT, PROGRESS_ONE};

verus! {

/// Side of a thumbnail while it is dragged, in pixels (the resting size
/// less the pick-up shrink).
pub const DRAG_SIZE_PX: i64 = 50;

/// Half the dragged thumbnail, in subpixels: offset from its corner to its
/// centre.
pub const DRAG_HALF_SUB: i64 = 25_000;

/// The dragged thumbnail covers the pointer by this fraction of the follow
/// step, in tenths: 6/10 of the remaining distance per tick.
pub const DAMP_NUM: i64 = 6;

pub const DAMP_DEN: i64 = 10;

/// Centre of the queue drop target, in subpixels.
pub const QUEUE_TARGET_X_SUB: i64 = 190_000;

pub const QUEUE_TARGET_Y_SUB: i64 = 190_000;

/// Height of the toss arc's apex, in subpixels.
pub const ARC_APEX_SUB: i64 = 150_000;

/// Ticks a toss animation plays for.
pub const TOSS_DURATION: u32 = 15;

/// Scale of a thumbnail at the moment it is tossed, in thousandths of the
/// resting size (the dragged size, 50/70).
pub const TOSS_START_SCALE: i64 = 714;

/// One damped follow step along one axis: the follower moves 6/10 of the
/// way to the target, rounded toward zero.
pub open spec fn damp_step_spec(follow: int, target: int) -> int {
    follow + div_trunc((target - follow) * (DAMP_NUM as int), DAMP_DEN as int)
}

/// The follow step never overshoots: the new position stays between the
/// old position and the target.
pub proof fn lemma_damp_step_bounded(follow: int, target: int)
    ensures
        follow <= target ==> follow <= damp_step_spec(follow, target) <= target,
        target <= follow ==> target <= damp_step_spec(follow, target) <= follow,
{
    let d = target - follow;
    assert(abs_int(d * (DAMP_NUM as int)) == abs_int(d) * (DAMP_NUM as int)) by (nonlinear_arith);
    assert(abs_int(d) * (DAMP_NUM as int) / (DAMP_DEN as int) <= abs_int(d)) by (nonlinear_arith);
    assert(d >= 0 ==> d * (DAMP_NUM as int) >= 0) by (nonlinear_arith);
    assert(d < 0 ==> d * (DAMP_NUM as int) < 0) by (nonlinear_arith);
}

/// One damped follow step, executable.
pub fn damp_step(follow: i64, target: i64) -> (r: i64)
    requires
        abs_int(follow as int) <= COORD_LIMIT,
        abs_int(target as int) <= COORD_LIMIT,
    ensures
        r == damp_step_spec(follow as int, target as int),
        abs_int(r as int) <= COORD_LIMIT,
{
    proof {
        lemma_damp_step_bounded(follow as int, target as int);
    }
    let diff: i64 = target - follow;
    follow + div_trunc64(diff * DAMP_NUM, DAMP_DEN)
}

/// The vertical arc curve for a toss starting at height `sy`, or the
/// straight-line fallback when the analytic solve degenerates: a parabola
/// through the start height whose apex sits at the arc height, scaled in
/// time so it meets the queue target at progress 1.
pub open spec fn solve_arc_spec(sy: int) -> Curve {
    let a = QUEUE_TARGET_Y_SUB as int - sy;
    let disc = 160_000 * (sy - ARC_APEX_SUB as int);
    if a == 0 || disc < 0 {
        Curve::Linear { from: sy as i64, to: QUEUE_TARGET_Y_SUB as i64 }
    } else {
        let sd = sqrt_floor(disc as nat) as int;
        let b = -2 * (ARC_APEX_SUB as int - sy);
        let vt = div_trunc((-b + sd) * (PROGRESS_ONE as int), 2 * a);
        if vt < 1 || vt > PROGRESS_ONE as int {
            Curve::Linear { from: sy as i64, to: QUEUE_TARGET_Y_SUB as i64 }
        } else {
            let scale = div_trunc((sy - ARC_APEX_SUB as int) * 1_000_000, vt * vt);
            if abs_int(scale) > SCALE_LIMIT as int {
                Curve::Linear { from: sy as i64, to: QUEUE_TARGET_Y_SUB as i64 }
            } else {
                Curve::Parabola { scale: scale as i64, vertex: vt as i64, offset: ARC_APEX_SUB as i64 }
            }
        }
    }
}

/// Solves the toss arc for a start height, falling back to a straight
/// vertical interpolation whenever the quadratic solve would divide by
/// zero, take a negative root, or leave the representable range.
pub fn solve_arc(sy: i64) -> (r: Curve)
    requires
        abs_int(sy as int) <= COORD_LIMIT,
    ensures
        r == solve_arc_spec(sy as int),
        curve_wf(r),
{
    let a: i64 = QUEUE_TARGET_Y_SUB - sy;
    let b: i64 = -2 * (ARC_APEX_SUB - sy);
    let c: i64 = ARC_APEX_SUB - sy;
    proof {
        assert(b as int * b as int - 4 * (a as int) * (c as int) == 160_000 * (sy as int
            - ARC_APEX_SUB)) by (nonlinear_arith)
            requires
                a == QUEUE_TARGET_Y_SUB - sy as int,
                b == -2 * (ARC_APEX_SUB - sy as int),
                c == ARC_APEX_SUB - sy as int,
        ;
        assert(abs_int(b as int * b as int) <= 0x4000_0000_0000_0000) by (nonlinear_arith)
            requires
                abs_int(b as int) <= 2_000_300_000,
        ;
        assert(abs_int(4 * (a as int) * (c as int)) <= 0x4000_0000_0000_0000)
            by (nonlinear_arith)
            requires
                abs_int(a as int) <= 1_000_190_000,
                abs_int(c as int) <= 1_000_150_000,
        ;
    }
    let disc: i64 = b * b - 4 * a * c;
    if a == 0 || disc < 0 {
        Curve::Linear { from: sy, to: QUEUE_TARGET_Y_SUB }
    } else {
        let sd: u64 = isqrt64(disc as u64);
        proof {
            crate::geom::lemma_sqrt_floor_lt(disc as nat, 20_000_000);
        }
        let vt: i64 = div_trunc64((-b + (sd as i64)) * PROGRESS_ONE, 2 * a);
        if vt < 1 || vt > PROGRESS_ONE {
            Curve::Linear { from: sy, to: QUEUE_TARGET_Y_SUB }
        } else {
            proof {
                assert(abs_int((sy as int - ARC_APEX_SUB) * 1_000_000) <= 0x7fff_ffff_ffff_ffff)
                    by (nonlinear_arith)
                    requires
                        abs_int(sy as int - ARC_APEX_SUB) <= 1_000_150_000,
                ;
                assert(1 <= vt as int * vt as int <= 1_000_000) by (nonlinear_arith)
                    requires
                        1 <= vt <= PROGRESS_ONE,
                ;
            }
            let scale: i64 = div_trunc64((sy - ARC_APEX_SUB) * 1_000_000, vt * vt);
            if scale > SCALE_LIMIT || scale < -SCALE_LIMIT {
                Curve::Linear { from: sy, to: QUEUE_TARGET_Y_SUB }
            } else {
                Curve::Parabola { scale, vertex: vt, offset: ARC_APEX_SUB }
            }
        }
    }
}

} // verus!
