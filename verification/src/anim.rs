//! Per-item animation: the easing step that moves a settled item toward its
//! target, freeze countdowns that stagger reveals, and time-parameterized
//! curves for the arc "toss" animation.
//!
//! The easing speed is `k * sqrt(|dist| / 100px)` pixels per tick, with
//! `k = 15` moving left and `k = 30` moving right; in subpixels that is
//! exactly `k * sqrt_floor(10 * |dist|)`.

use vstd::prelude::*;
use crate::geom::{
    sqrt_floor, lemma_sqrt_floor_lt, isqrt64, div_trunc, div_trunc64, abs_int, POS_LIMIT,
    COORD_LIMIT,
};

verus! {

/// An item within this distance of its target (in subpixels) snaps onto it.
pub const SNAP_SUB: i64 = 2000;

/// Speed factor when easing leftward toward a smaller target.
pub const EASE_LEFT_RATE: i64 = 15;

/// Speed factor when easing rightward toward a larger target.
pub const EASE_RIGHT_RATE: i64 = 30;

/// Largest speed (subpixels per tick) an easing step can produce.
pub const VEL_LIMIT: i64 = 10_000_000;

/// Largest quadratic coefficient a parabolic curve may carry.
pub const SCALE_LIMIT: i64 = 8_000_000_000_000;

/// Largest value a curve evaluation can produce.
pub const EVAL_LIMIT: i64 = 9_000_000_000_000;

/// Progress along a curve is measured in thousandths.
pub const PROGRESS_ONE: i64 = 1000;

/// A pure animation curve over normalized progress `t` in `[0, 1]`:
/// constant, linear interpolation, or the parabola
/// `scale * (t - vertex)^2 + offset` with `t` and `vertex` in thousandths.
#[derive(Clone, Copy)]
pub enum Curve {
    Constant { value: i64 },
    Linear { from: i64, to: i64 },
    Parabola { scale: i64, vertex: i64, offset: i64 },
}

pub open spec fn curve_wf(c: Curve) -> bool {
    match c {
        Curve::Constant { value } => abs_int(value as int) <= POS_LIMIT,
        Curve::Linear { from, to } => abs_int(from as int) <= POS_LIMIT && abs_int(
            to as int,
        ) <= POS_LIMIT,
        Curve::Parabola { scale, vertex, offset } => 1 <= vertex <= PROGRESS_ONE && abs_int(
            scale as int,
        ) <= SCALE_LIMIT && abs_int(offset as int) <= POS_LIMIT,
    }
}

/// The value of a curve at progress `num / den`.
pub open spec fn curve_at(c: Curve, num: int, den: int) -> int {
    match c {
        Curve::Constant { value } => value as int,
        Curve::Linear { from, to } => from + div_trunc((to - from) * num, den),
        Curve::Parabola { scale, vertex, offset } => {
            let t = div_trunc(num * PROGRESS_ONE, den);
            offset + div_trunc(scale * ((t - vertex) * (t - vertex)), 1_000_000)
        },
    }
}

/// Evaluates a curve at progress `num / den`.
pub fn curve_eval(c: &Curve, num: u32, den: u32) -> (r: i64)
    requires
        curve_wf(*c),
        1 <= den,
        num <= den,
    ensures
        r == curve_at(*c, num as int, den as int),
        abs_int(r as int) <= EVAL_LIMIT,
{
    match c {
        Curve::Constant { value } => *value,
        Curve::Linear { from, to } => {
            let diff: i64 = *to - *from;
            proof {
                assert(abs_int(diff as int * num as int) <= 2_020_000_000 * den)
                    by (nonlinear_arith)
                    requires
                        abs_int(diff as int) <= 2_020_000_000,
                        0 <= num <= den,
                ;
                assert(2_020_000_000 * den <= 2_020_000_000 * 0xffff_ffff) by (nonlinear_arith)
                    requires
                        den <= 0xffff_ffff,
                ;
                assert(abs_int(div_trunc(diff as int * num as int, den as int)) <= abs_int(
                    diff as int * num as int,
                )) by (nonlinear_arith)
                    requires
                        1 <= den,
                ;
                assert(abs_int(div_trunc(diff as int * num as int, den as int))
                    <= 2_020_000_000) by (nonlinear_arith)
                    requires
                        abs_int(diff as int * num as int) <= 2_020_000_000 * den,
                        1 <= den,
                ;
            }
            let prod: i64 = diff * (num as i64);
            *from + div_trunc64(prod, den as i64)
        },
        Curve::Parabola { scale, vertex, offset } => {
            let tnum: i64 = (num as i64) * PROGRESS_ONE;
            proof {
                assert(0 <= div_trunc(tnum as int, den as int) <= PROGRESS_ONE)
                    by (nonlinear_arith)
                    requires
                        tnum == num * (PROGRESS_ONE as int),
                        0 <= num <= den,
                        1 <= den,
                ;
            }
            let t: i64 = div_trunc64(tnum, den as i64);
            let d: i64 = t - *vertex;
            proof {
                assert(-1000 <= d <= 1000);
                assert(0 <= d as int * d as int <= 1_000_000) by (nonlinear_arith)
                    requires
                        -1000 <= d <= 1000,
                ;
            }
            let sq: i64 = d * d;
            proof {
                assert(abs_int(scale as int * sq as int) <= SCALE_LIMIT * 1_000_000)
                    by (nonlinear_arith)
                    requires
                        abs_int(scale as int) <= SCALE_LIMIT,
                        0 <= sq <= 1_000_000,
                ;
                assert(abs_int(div_trunc(scale as int * sq as int, 1_000_000)) <= SCALE_LIMIT)
                    by (nonlinear_arith)
                    requires
                        abs_int(scale as int * sq as int) <= SCALE_LIMIT * 1_000_000,
                ;
            }
            let prod: i64 = *scale * sq;
            *offset + div_trunc64(prod, 1_000_000)
        },
    }
}

/// A linear curve reaches its endpoints exactly: the toss scale curve ends
/// at zero, so the thumbnail is gone when the animation finishes.
pub proof fn lemma_linear_endpoints(from: i64, to: i64, den: int)
    requires
        1 <= den,
    ensures
        curve_at(Curve::Linear { from, to }, 0, den) == from,
        curve_at(Curve::Linear { from, to }, den, den) == to,
{
    let diff = to as int - from as int;
    assert(diff * 0 == 0);
    assert(div_trunc(0, den) == 0);
    assert(abs_int(diff * den) == abs_int(diff) * den) by (nonlinear_arith)
        requires 1 <= den;
    vstd::arithmetic::div_mod::lemma_div_by_multiple(abs_int(diff), den);
    assert(abs_int(diff) * den / den == abs_int(diff));
    assert(diff >= 0 ==> diff * den >= 0) by (nonlinear_arith)
        requires 1 <= den;
    assert(diff < 0 ==> diff * den < 0) by (nonlinear_arith)
        requires 1 <= den;
    assert(div_trunc(diff * den, den) == diff);
}

/// The state of one grid item, advanced once per frame tick.
pub enum ItemState {
    /// Free: eases toward its row target each tick.
    Default,
    /// Held by the drag controller; excluded from easing.
    Dragged,
    /// Inert for `remaining` more ticks, then becomes `Default`.
    Freeze { remaining: u32 },
    /// Time-parameterized trajectory for the toss gesture; finished once
    /// `elapsed` reaches `duration`.
    Anim { duration: u32, elapsed: u32, x_curve: Curve, y_curve: Curve, scale_curve: Curve },
}

/// One album thumbnail in a grid row: the record it shows (as a catalog
/// index), its x position and velocity in subpixels, and its state.
pub struct GridItem {
    pub album: usize,
    pub x_pos: i64,
    pub x_vel: i64,
    pub state: ItemState,
}

pub open spec fn state_wf(s: ItemState) -> bool {
    match s {
        ItemState::Anim { duration, elapsed, x_curve, y_curve, scale_curve } => 1 <= duration
            && elapsed <= duration && curve_wf(x_curve) && curve_wf(y_curve) && curve_wf(
            scale_curve,
        ),
        _ => true,
    }
}

pub open spec fn item_wf(it: GridItem) -> bool {
    &&& abs_int(it.x_pos as int) <= POS_LIMIT
    &&& abs_int(it.x_vel as int) <= VEL_LIMIT
    &&& state_wf(it.state)
}

/// The easing velocity for a signed distance from the target.
pub open spec fn ease_vel(dist: int) -> int {
    if dist > SNAP_SUB {
        -EASE_LEFT_RATE * sqrt_floor((10 * dist) as nat)
    } else if dist < -SNAP_SUB {
        EASE_RIGHT_RATE * sqrt_floor((-10 * dist) as nat)
    } else {
        0
    }
}

/// One easing step of a free item: position and velocity after the tick.
/// Within the snap threshold the item lands exactly on the target and
/// stops; otherwise it moves by the easing velocity.
pub open spec fn step_default_spec(pos: int, target: int) -> (int, int) {
    let dist = pos - target;
    if -SNAP_SUB <= dist <= SNAP_SUB {
        (target, 0)
    } else {
        let v = ease_vel(dist);
        (pos + v, v)
    }
}

/// Settling is idempotent: once an item is within the snap threshold of an
/// unchanged target, one step pins it to the target and every further step
/// leaves position and velocity fixed.
pub proof fn lemma_settle_idempotent(pos: int, target: int)
    requires
        abs_int(pos - target) <= SNAP_SUB,
    ensures
        step_default_spec(pos, target) == (target, 0int),
        step_default_spec(step_default_spec(pos, target).0, target) == step_default_spec(
            pos,
            target,
        ),
{
}

/// The easing step, in executable form.
pub fn step_default(pos: i64, target: i64) -> (r: (i64, i64))
    requires
        abs_int(pos as int) <= POS_LIMIT,
        abs_int(target as int) <= COORD_LIMIT,
    ensures
        (r.0 as int, r.1 as int) == step_default_spec(pos as int, target as int),
        abs_int(r.0 as int) <= POS_LIMIT,
        abs_int(r.1 as int) <= VEL_LIMIT,
{
    let dist: i64 = pos - target;
    if dist > SNAP_SUB {
        let s: u64 = isqrt64((10 * dist) as u64);
        proof {
            lemma_sqrt_floor_lt((10 * dist) as nat, 150_000);
        }
        let v: i64 = -EASE_LEFT_RATE * (s as i64);
        (pos + v, v)
    } else if dist < -SNAP_SUB {
        let s: u64 = isqrt64((-(10 * dist)) as u64);
        proof {
            lemma_sqrt_floor_lt((-(10 * dist)) as nat, 150_000);
        }
        let v: i64 = EASE_RIGHT_RATE * (s as i64);
        (pos + v, v)
    } else {
        (target, 0)
    }
}

/// One tick of the per-item state machine.
pub open spec fn update_item_spec(it: GridItem, target: int) -> GridItem {
    match it.state {
        ItemState::Default => {
            let (p, v) = step_default_spec(it.x_pos as int, target);
            GridItem { x_pos: p as i64, x_vel: v as i64, ..it }
        },
        ItemState::Freeze { remaining } => {
            if remaining > 0 {
                GridItem { state: ItemState::Freeze { remaining: (remaining - 1) as u32 }, ..it }
            } else {
                GridItem { state: ItemState::Default, ..it }
            }
        },
        ItemState::Anim { duration, elapsed, x_curve, y_curve, scale_curve } => {
            if elapsed < duration {
                GridItem {
                    state: ItemState::Anim {
                        duration,
                        elapsed: (elapsed + 1) as u32,
                        x_curve,
                        y_curve,
                        scale_curve,
                    },
                    ..it
                }
            } else {
                GridItem { state: ItemState::Default, ..it }
            }
        },
        ItemState::Dragged => it,
    }
}

/// Advances one item by one tick: easing when free, counting a freeze
/// down, or advancing an animation. Never touches which album it shows.
pub fn update_item(it: &mut GridItem, target: i64)
    requires
        item_wf(*old(it)),
        abs_int(target as int) <= COORD_LIMIT,
    ensures
        *final(it) == update_item_spec(*old(it), target as int),
        item_wf(*final(it)),
        final(it).album == old(it).album,
{
    match &it.state {
        ItemState::Default => {
            let (p, v) = step_default(it.x_pos, target);
            it.x_pos = p;
            it.x_vel = v;
        },
        ItemState::Freeze { remaining } => {
            if *remaining > 0 {
                it.state = ItemState::Freeze { remaining: *remaining - 1 };
            } else {
                it.state = ItemState::Default;
            }
        },
        ItemState::Anim { duration, elapsed, x_curve, y_curve, scale_curve } => {
            if *elapsed < *duration {
                it.state = ItemState::Anim {
                    duration: *duration,
                    elapsed: *elapsed + 1,
                    x_curve: *x_curve,
                    y_curve: *y_curve,
                    scale_curve: *scale_curve,
                };
            } else {
                it.state = ItemState::Default;
            }
        },
        ItemState::Dragged => {},
    }
}

/// A settled item stays settled: once a free item is within the snap
/// threshold of its target, any number of further ticks with the target
/// unchanged leaves it exactly on the target, at rest.
pub proof fn lemma_settled_item_fixed(it: GridItem, target: int, n: nat)
    requires
        it.state is Default,
        abs_int(it.x_pos - target) <= SNAP_SUB,
        abs_int(target) <= COORD_LIMIT,
        n >= 1,
    ensures
        iter_update(it, target, n) == update_item_spec(it, target),
    decreases n,
{
    if n == 1 {
        assert(iter_update(it, target, 0) == it);
    } else {
        lemma_settled_item_fixed(it, target, (n - 1) as nat);
        lemma_settle_idempotent(it.x_pos as int, target);
        let once = update_item_spec(it, target);
        assert(abs_int(once.x_pos - target) == 0);
        lemma_settle_idempotent(once.x_pos as int, target);
    }
}

/// A tick keeps an item well-formed and never changes which album it
/// shows.
pub proof fn lemma_update_item_wf(it: GridItem, target: int)
    requires
        item_wf(it),
        abs_int(target) <= COORD_LIMIT,
    ensures
        item_wf(update_item_spec(it, target)),
        update_item_spec(it, target).album == it.album,
{
    match it.state {
        ItemState::Default => {
            let dist = it.x_pos - target;
            if dist > SNAP_SUB {
                lemma_sqrt_floor_lt((10 * dist) as nat, 150_000);
            } else if dist < -SNAP_SUB {
                lemma_sqrt_floor_lt((-10 * dist) as nat, 150_000);
            }
        },
        _ => {},
    }
}

/// True once an animation has played its full duration.
pub open spec fn anim_finished(s: ItemState) -> bool {
    match s {
        ItemState::Anim { duration, elapsed, .. } => elapsed >= duration,
        _ => false,
    }
}

/// `n` ticks of the state machine.
pub open spec fn iter_update(it: GridItem, target: int, n: nat) -> GridItem
    decreases n,
{
    if n == 0 {
        it
    } else {
        update_item_spec(iter_update(it, target, (n - 1) as nat), target)
    }
}

proof fn lemma_anim_progress(it: GridItem, target: int, n: nat)
    requires
        it.state matches ItemState::Anim { duration, elapsed, .. } && elapsed == 0 && n
            <= duration,
    ensures
        iter_update(it, target, n).state matches ItemState::Anim {
            duration: d2,
            elapsed: e2,
            ..
        } && e2 == n && d2 == it.state->Anim_duration && iter_update(it, target, n).album
            == it.album,
    decreases n,
{
    if n > 0 {
        lemma_anim_progress(it, target, (n - 1) as nat);
    }
}

/// An animation of duration `d` is finished after exactly `d` ticks:
/// not one earlier, whatever its curves.
pub proof fn lemma_anim_terminates(it: GridItem, target: int, d: u32)
    requires
        it.state matches ItemState::Anim { duration, elapsed, .. } && duration == d && elapsed
            == 0,
    ensures
        anim_finished(iter_update(it, target, d as nat).state),
        forall|k: nat| k < d ==> !anim_finished(#[trigger] iter_update(it, target, k).state),
{
    lemma_anim_progress(it, target, d as nat);
    assert forall|k: nat| k < d implies !anim_finished(
        #[trigger] iter_update(it, target, k).state,
    ) by {
        lemma_anim_progress(it, target, k);
    }
}

/// The rendered centre position and scale of an item in the toss
/// animation: its curves evaluated at the current progress. Positions are
/// subpixels; the scale is in thousandths of the thumbnail size.
pub fn anim_pos_and_scale(it: &GridItem) -> (r: Option<((i64, i64), i64)>)
    requires
        item_wf(*it),
    ensures
        match it.state {
            ItemState::Anim { duration, elapsed, x_curve, y_curve, scale_curve } => r == Some(
                (
                    (
                        curve_at(x_curve, elapsed as int, duration as int) as i64,
                        curve_at(y_curve, elapsed as int, duration as int) as i64,
                    ),
                    curve_at(scale_curve, elapsed as int, duration as int) as i64,
                ),
            ) && abs_int(curve_at(x_curve, elapsed as int, duration as int)) <= EVAL_LIMIT
                && abs_int(curve_at(y_curve, elapsed as int, duration as int)) <= EVAL_LIMIT
                && abs_int(curve_at(scale_curve, elapsed as int, duration as int)) <= EVAL_LIMIT,
            _ => r is None,
        },
{
    match &it.state {
        ItemState::Anim { duration, elapsed, x_curve, y_curve, scale_curve } => {
            let x = curve_eval(x_curve, *elapsed, *duration);
            let y = curve_eval(y_curve, *elapsed, *duration);
            let s = curve_eval(scale_curve, *elapsed, *duration);
            Some(((x, y), s))
        },
        _ => None,
    }
}

} // verus!
