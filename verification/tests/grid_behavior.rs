use micromusic::catalog::AlbumRecord;
use micromusic::grid::{AlbumGrid, DropOutcome};

fn record(n: usize) -> AlbumRecord {
    AlbumRecord {
        title: format!("Album {}", n),
        album_artist: format!("Artist {}", n),
        artwork: n as u64,
    }
}

fn records(n: usize) -> Vec<AlbumRecord> {
    let mut v = Vec::new();
    let mut i: usize = 0;
    while i < n {
        v.push(record(i));
        i += 1;
    }
    v
}

/// Every place a record can sit, for conservation checks.
fn all_albums(g: &AlbumGrid) -> Vec<usize> {
    let mut out = Vec::new();
    for row in &g.rows {
        for it in row {
            out.push(it.album);
        }
    }
    if let Some(s) = &g.drag {
        out.push(s.item.album);
    }
    for it in &g.tossing {
        out.push(it.album);
    }
    out
}

fn occupied_count(g: &AlbumGrid) -> usize {
    all_albums(g).len() + g.queue.len()
}

/// No album index may show up twice outside the queue; together with the
/// count check this exercises the conservation invariant at runtime.
fn assert_no_duplicates(g: &AlbumGrid) {
    let mut seen = all_albums(g);
    seen.sort();
    for w in seen.windows(2) {
        assert_ne!(w[0], w[1], "an album appears in two places");
    }
}

#[test]
fn scenario_load_twelve_fills_grid() {
    let mut g = AlbumGrid::new();
    g.load_records(records(12));
    g.fill_grid(false);
    for r in 0..3 {
        assert_eq!(g.render_row(r).len(), 3);
        let rects = g.render_row(r);
        for (c, rect) in rects.iter().enumerate() {
            assert_eq!(rect.x_px, 70 * c as i64);
            assert_eq!(rect.y_px, 70 * r as i64);
            assert_eq!(rect.size_px, 70);
        }
    }
    assert_eq!(g.queue.len(), 3);
    assert_eq!(occupied_count(&g), 12);
    assert_no_duplicates(&g);
}

#[test]
fn scenario_drag_and_drop_to_grid() {
    let mut g = AlbumGrid::new();
    g.load_records(records(12));
    g.fill_grid(false);

    // Press on row 1, column 0 (subpixel coordinates).
    let picked = g.begin_drag(5_000, 75_000);
    assert!(picked);
    assert!(g.drag.is_some());
    // The vacated slot is backfilled at once: queue 3 -> 2.
    assert_eq!(g.queue.len(), 2);
    assert_eq!(g.rows[1].len(), 3);
    assert_eq!(occupied_count(&g), 12);
    assert_no_duplicates(&g);

    // Release over row 2, column 2.
    let outcome = g.end_drag(145_000, 145_000, false);
    assert_eq!(outcome, DropOutcome::Inserted { row: 2, col: 2 });
    assert_eq!(g.rows[2].len(), 4);
    // The dropped item sits at its column target at once.
    assert_eq!(g.render_row(2)[2].x_px, 140);
    assert_eq!(occupied_count(&g), 12);
    assert_no_duplicates(&g);

    // The backfilled item slides in from the right edge toward its slot.
    let before = g.render_row(1)[2].x_px;
    assert_eq!(before, 210);
    g.step_rows(0, 0);
    let after = g.render_row(1)[2].x_px;
    assert!(after < before);
}

#[test]
fn pressing_empty_space_or_while_dragging_is_a_no_op() {
    let mut g = AlbumGrid::new();
    assert!(!g.begin_drag(5_000, 75_000));
    g.load_records(records(12));
    g.fill_grid(false);
    // Outside the artwork area.
    assert!(!g.begin_drag(5_000, 220_000));
    assert!(!g.begin_drag(-5_000, 5_000));
    // A second press while a drag is active changes nothing.
    assert!(g.begin_drag(5_000, 5_000));
    let queue_before = g.queue.len();
    assert!(!g.begin_drag(75_000, 75_000));
    assert_eq!(g.queue.len(), queue_before);
    assert_eq!(occupied_count(&g), 12);
    assert_no_duplicates(&g);
}

#[test]
fn drag_cancel_returns_record_to_queue() {
    let mut g = AlbumGrid::new();
    g.load_records(records(10));
    g.fill_grid(false);
    assert_eq!(g.queue.len(), 1);
    assert!(g.begin_drag(5_000, 5_000));
    let dragged = g.drag.as_ref().unwrap().item.album;
    // Release below the grid: no valid cell, so the drop cancels.
    let outcome = g.end_drag(5_000, 240_000, false);
    assert_eq!(outcome, DropOutcome::Cancelled);
    assert!(g.drag.is_none());
    assert_eq!(g.queue.len(), 1);
    // The cancelled record is the queue's newest entry.
    let mut last: usize = 0;
    while let Some(a) = g.queue.dequeue() {
        last = a;
    }
    assert_eq!(last, dragged);
}

#[test]
fn toss_runs_fifteen_ticks_then_requeues() {
    let mut g = AlbumGrid::new();
    g.load_records(records(12));
    g.fill_grid(false);
    assert!(g.begin_drag(5_000, 5_000));
    let dragged = g.drag.as_ref().unwrap().item.album;
    let outcome = g.end_drag(190_000, 190_000, true);
    assert_eq!(outcome, DropOutcome::Tossed);
    assert_eq!(g.tossing.len(), 1);
    let queue_before = g.queue.len();

    // The animation lasts exactly 15 ticks: 14 ticks change nothing...
    for _ in 0..14 {
        let done = g.step_toss();
        assert!(done.is_empty());
        assert_eq!(g.tossing.len(), 1);
    }
    // ...and the 15th finishes it, returning the record to the queue.
    let done = g.step_toss();
    assert_eq!(done, vec![dragged]);
    assert!(g.tossing.is_empty());
    assert_eq!(g.queue.len(), queue_before + 1);
    assert_eq!(occupied_count(&g), 12);
    assert_no_duplicates(&g);
}

#[test]
fn toss_scale_shrinks_to_nothing() {
    let mut g = AlbumGrid::new();
    g.load_records(records(12));
    g.fill_grid(false);
    assert!(g.begin_drag(5_000, 5_000));
    g.end_drag(190_000, 190_000, true);
    let start = g.render_toss()[0];
    assert!(start.size_px > 0);
    for _ in 0..14 {
        g.step_toss();
    }
    // At the last drawn tick the thumbnail is nearly gone.
    let end = g.render_toss()[0];
    assert!(end.size_px < start.size_px);
    assert!(end.size_px <= 5);
}

#[test]
fn reshuffle_keeps_every_record_and_staggers_reveal() {
    let mut g = AlbumGrid::new();
    g.load_records(records(11));
    g.fill_grid(false);
    g.reshuffle();
    for r in 0..3 {
        assert_eq!(g.rows[r].len(), 3);
        // Reshuffled items start one artwork-width right of their target.
        for (c, rect) in g.render_row(r).iter().enumerate() {
            assert_eq!(rect.x_px, 70 * c as i64 + 210);
        }
    }
    assert_eq!(g.queue.len(), 2);
    assert_eq!(occupied_count(&g), 11);
    assert_no_duplicates(&g);
}

#[test]
fn settled_items_stay_put() {
    let mut g = AlbumGrid::new();
    g.load_records(records(9));
    g.fill_grid(false);
    let before: Vec<_> = (0..3).map(|r| g.render_row(r)).collect();
    for _ in 0..5 {
        g.step_rows(0, 0);
    }
    for r in 0..3 {
        assert_eq!(g.render_row(r), before[r]);
    }
}

#[test]
fn placeholder_shifts_targets_while_dragging() {
    let mut g = AlbumGrid::new();
    g.load_records(records(12));
    g.fill_grid(false);
    // Lift the item at row 0, column 0; hover over row 0, column 0.
    assert!(g.begin_drag(5_000, 5_000));
    for _ in 0..200 {
        g.step_rows(5_000, 5_000);
    }
    // With the placeholder at column 0 the two remaining old items shift
    // right by one cell; the backfilled third settles past the edge.
    let rects = g.render_row(0);
    assert_eq!(rects[0].x_px, 70);
    assert_eq!(rects[1].x_px, 140);
    assert_eq!(rects[2].x_px, 210);
}

#[test]
fn recycle_pops_a_settled_offscreen_item() {
    let mut g = AlbumGrid::new();
    g.load_records(records(12));
    g.fill_grid(false);
    assert!(g.begin_drag(5_000, 75_000));
    assert_eq!(g.end_drag(145_000, 145_000, false), DropOutcome::Inserted { row: 2, col: 2 });
    // Row 2 now holds four items; let the trailing one settle off screen.
    for _ in 0..300 {
        g.step_rows(0, 0);
    }
    assert_eq!(g.rows[2].len(), 4);
    assert_eq!(g.render_row(2)[3].x_px, 210);
    let queue_before = g.queue.len();
    g.recycle();
    assert_eq!(g.rows[2].len(), 3);
    assert_eq!(g.queue.len(), queue_before + 1);
    assert_eq!(occupied_count(&g), 12);
    assert_no_duplicates(&g);
}

#[test]
fn hover_enlarges_only_settled_items() {
    let mut g = AlbumGrid::new();
    g.load_records(records(9));
    g.fill_grid(false);
    let r = g.hover_rect(75_000, 75_000, true).unwrap();
    assert_eq!(r.x_px, 65);
    assert_eq!(r.y_px, 65);
    assert_eq!(r.size_px, 80);
    // No enlargement without focus, outside the window, or while dragging.
    assert!(g.hover_rect(75_000, 75_000, false).is_none());
    assert!(g.hover_rect(75_000, 260_000, true).is_none());
    assert!(g.begin_drag(5_000, 5_000));
    assert!(g.hover_rect(75_000, 75_000, true).is_none());
}

#[test]
fn drag_follow_trails_the_pointer() {
    let mut g = AlbumGrid::new();
    g.load_records(records(9));
    g.fill_grid(false);
    assert!(g.begin_drag(5_000, 5_000));
    // The follow position starts at the item's pre-drag corner plus the
    // pick-up shrink offset.
    let s = g.drag.as_ref().unwrap();
    assert_eq!(s.follow_x, 10_000);
    assert_eq!(s.follow_y, 10_000);
    // One damped step moves 6/10 of the way to the pointer centre target.
    g.drag_follow(135_000, 135_000);
    let s = g.drag.as_ref().unwrap();
    assert_eq!(s.follow_x, 10_000 + (110_000 - 10_000) * 6 / 10);
    assert_eq!(s.follow_y, 70_000);
    // The rendered drag rect uses the follow position in the drag size.
    let rect = g.render_drag().unwrap();
    assert_eq!(rect.x_px, 70);
    assert_eq!(rect.y_px, 70);
    assert_eq!(rect.size_px, 50);
}

#[test]
fn empty_queue_fill_places_nothing() {
    let mut g = AlbumGrid::new();
    g.fill_grid(false);
    for r in 0..3 {
        assert!(g.render_row(r).is_empty());
    }
    assert_eq!(g.queue.len(), 0);
    // Loading fewer records than a full grid fills what it can.
    g.load_records(records(4));
    g.fill_grid(false);
    assert_eq!(g.rows[0].len(), 2);
    assert_eq!(g.rows[1].len(), 1);
    assert_eq!(g.rows[2].len(), 1);
    assert_eq!(g.queue.len(), 0);
    assert_eq!(occupied_count(&g), 4);
    assert_no_duplicates(&g);
}
