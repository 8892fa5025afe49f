use micromusic::anim::{Curve, GridItem, ItemState};
use micromusic::anim::{curve_eval, step_default, update_item};
use micromusic::geom::{clamp_coord, div_trunc64, isqrt64};
use micromusic::layout::{hovered_cell, target_x};
use micromusic::queue::AlbumQueue;

#[test]
fn isqrt_rounds_down() {
    assert_eq!(isqrt64(0), 0);
    assert_eq!(isqrt64(1), 1);
    assert_eq!(isqrt64(3), 1);
    assert_eq!(isqrt64(4), 2);
    assert_eq!(isqrt64(99), 9);
    assert_eq!(isqrt64(100), 10);
    assert_eq!(isqrt64(700_000), 836);
}

#[test]
fn division_truncates_toward_zero() {
    assert_eq!(div_trunc64(7, 2), 3);
    assert_eq!(div_trunc64(-7, 2), -3);
    assert_eq!(div_trunc64(7, -2), -3);
    assert_eq!(div_trunc64(-7, -2), 3);
}

#[test]
fn coordinates_clamp_to_layout_space() {
    assert_eq!(clamp_coord(123), 123);
    assert_eq!(clamp_coord(2_000_000_000), 1_000_000_000);
    assert_eq!(clamp_coord(-2_000_000_000), -1_000_000_000);
}

#[test]
fn targets_grow_by_one_cell_per_column() {
    assert_eq!(target_x(0, None), 0);
    assert_eq!(target_x(1, None), 70_000);
    assert_eq!(target_x(2, None), 140_000);
    // A placeholder at or before the column shifts it one cell right.
    assert_eq!(target_x(1, Some(0)), 140_000);
    assert_eq!(target_x(1, Some(1)), 140_000);
    assert_eq!(target_x(1, Some(2)), 70_000);
}

#[test]
fn hovered_cell_floors_and_rejects_negatives() {
    assert_eq!(hovered_cell(75_000, 145_000), Some((2, 1)));
    assert_eq!(hovered_cell(0, 0), Some((0, 0)));
    assert_eq!(hovered_cell(69_999, 69_999), Some((0, 0)));
    // A negative coordinate must never floor into cell zero.
    assert_eq!(hovered_cell(-1, 10_000), None);
    assert_eq!(hovered_cell(10_000, -1), None);
}

#[test]
fn settling_snaps_and_stays() {
    // Within the 2-pixel threshold the item lands exactly and stops.
    let (p1, v1) = step_default(70_500, 70_000);
    assert_eq!((p1, v1), (70_000, 0));
    // Repeating the step with the target unchanged moves nothing.
    let (p2, v2) = step_default(p1, 70_000);
    assert_eq!((p2, v2), (70_000, 0));
}

#[test]
fn easing_is_twice_as_fast_rightward() {
    // One cell to the left of its target the item moves right...
    let (_, v_right) = step_default(0, 70_000);
    // ...and one cell to the right of its target it moves left.
    let (_, v_left) = step_default(140_000, 70_000);
    assert!(v_right > 0 && v_left < 0);
    assert_eq!(v_right, 30 * 836);
    assert_eq!(v_left, -15 * 836);
}

#[test]
fn freeze_counts_down_then_frees() {
    let mut it = GridItem {
        album: 0,
        x_pos: 0,
        x_vel: 0,
        state: ItemState::Freeze { remaining: 2 },
    };
    update_item(&mut it, 70_000);
    assert!(matches!(it.state, ItemState::Freeze { remaining: 1 }));
    assert_eq!(it.x_pos, 0);
    update_item(&mut it, 70_000);
    assert!(matches!(it.state, ItemState::Freeze { remaining: 0 }));
    update_item(&mut it, 70_000);
    assert!(matches!(it.state, ItemState::Default));
    // Only now does it start moving.
    update_item(&mut it, 70_000);
    assert!(it.x_pos > 0);
}

#[test]
fn curves_hit_their_endpoints() {
    let lin = Curve::Linear { from: 714, to: 0 };
    assert_eq!(curve_eval(&lin, 0, 15), 714);
    assert_eq!(curve_eval(&lin, 15, 15), 0);
    let con = Curve::Constant { value: 42 };
    assert_eq!(curve_eval(&con, 7, 15), 42);
    // A parabola with its vertex mid-way: offset at the vertex.
    let par = Curve::Parabola { scale: 1_000_000, vertex: 500, offset: 150_000 };
    assert_eq!(curve_eval(&par, 1, 2), 150_000);
    assert_eq!(curve_eval(&par, 0, 2), 150_000 + 1_000_000 * 500 * 500 / 1_000_000);
}

#[test]
fn album_queue_is_fifo() {
    let mut q = AlbumQueue::new();
    assert_eq!(q.len(), 0);
    assert_eq!(q.dequeue(), None);
    q.enqueue(4);
    q.enqueue(7);
    q.enqueue(1);
    assert_eq!(q.len(), 3);
    assert_eq!(q.dequeue(), Some(4));
    assert_eq!(q.dequeue(), Some(7));
    q.enqueue(9);
    assert_eq!(q.dequeue(), Some(1));
    assert_eq!(q.dequeue(), Some(9));
    assert_eq!(q.dequeue(), None);
}
