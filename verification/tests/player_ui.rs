use micromusic::player::{
    JXACommand, NowPlayingInfo, PlayerInfo, PlayerState, TrackInfo, poll_delay_ms,
    scroll_offset_step,
};
use micromusic::ui::{Button, ButtonState, MouseState, View, button_activation};

fn track(name: &str, length: u64) -> TrackInfo {
    TrackInfo {
        name: name.to_string(),
        artist: "Artist".to_string(),
        album: "Album".to_string(),
        loved: false,
        length,
    }
}

#[test]
fn poll_delay_clamps_to_window() {
    // Far from the end: the ceiling.
    assert_eq!(poll_delay_ms(200_000, 10_000), 3000);
    // Near the end: the exact remainder.
    assert_eq!(poll_delay_ms(200_000, 198_500), 1500);
    // Nearly over, or already past: the floor.
    assert_eq!(poll_delay_ms(200_000, 199_950), 200);
    assert_eq!(poll_delay_ms(200_000, 250_000), 200);
}

#[test]
fn update_rebuilds_only_on_track_change() {
    let mut np = NowPlayingInfo::placeholder();
    let p1 = PlayerInfo { pos: 1_000, dj_active: false, state: PlayerState::Playing };
    assert!(np.update(Some((track("One", 60_000), p1))));
    assert_eq!(np.player.pos(), 1_000);

    // The same track again: only the player half moves.
    let p2 = PlayerInfo { pos: 2_000, dj_active: false, state: PlayerState::Playing };
    assert!(!np.update(Some((track("One", 60_000), p2))));
    assert_eq!(np.player.pos(), 2_000);
    assert_eq!(np.track.name(), "One");

    // A different track: rebuild.
    let p3 = PlayerInfo { pos: 0, dj_active: false, state: PlayerState::Playing };
    assert!(np.update(Some((track("Two", 30_000), p3))));
    assert_eq!(np.track.name(), "Two");

    // The player fell silent: back to the placeholder.
    assert!(np.update(None));
    assert_eq!(np.track.name(), "");
    assert_eq!(np.track.length(), 1000);
    assert!(matches!(np.player.state(), PlayerState::Stopped));
}

#[test]
fn scroll_wraps_after_text_and_gap() {
    // Width 10 plus the 50-pixel gap: period 60.
    assert_eq!(scroll_offset_step(0, 10, true), 1);
    assert_eq!(scroll_offset_step(58, 10, true), 59);
    assert_eq!(scroll_offset_step(59, 10, true), 0);
    assert_eq!(scroll_offset_step(17, 10, false), 17);
}

#[test]
fn commands_map_to_their_scripts() {
    assert_eq!(JXACommand::PlayPause.as_str(), "Application('Music').playpause()");
    assert_eq!(JXACommand::NextTrack.as_str(), "Application('Music').nextTrack()");
    assert_eq!(JXACommand::BackTrack.as_str(), "Application('Music').backTrack()");
    assert_eq!(
        JXACommand::Love.as_str(),
        "Application('Music').currentTrack.loved = true"
    );
    assert_eq!(
        JXACommand::Unlove.as_str(),
        "Application('Music').currentTrack.loved = false"
    );
}

#[test]
fn mouse_buttons_use_one_based_bit_mask() {
    let m = MouseState::new(0b101, 30, 40);
    assert_eq!(m.x(), 30);
    assert_eq!(m.y(), 40);
    assert!(m.is_mouse_button_pressed(1));
    assert!(!m.is_mouse_button_pressed(2));
    assert!(m.is_mouse_button_pressed(3));
}

#[test]
fn buttons_hit_with_a_margin() {
    let b = Button::new(19, 5, 10, 10);
    // The hit area extends 2 pixels beyond the 10-pixel image.
    assert!(b.is_hovering(17, 3));
    assert!(b.is_hovering(30, 16));
    assert!(!b.is_hovering(31, 10));
    assert!(!b.is_hovering(16, 10));
    assert_eq!(b.get_state(20, 10, false), ButtonState::Hover);
    assert_eq!(b.get_state(20, 10, true), ButtonState::Pressed);
    assert_eq!(b.get_state(200, 200, true), ButtonState::Idle);
    // An inactive button is never hit.
    let mut off = b;
    off.active = false;
    assert!(!off.is_hovering(20, 10));
}

#[test]
fn activation_is_a_pure_function_of_state() {
    let album = button_activation(View::AlbumSelect, false, false, false);
    assert!(album.miniplayer_view && album.reshuffle && album.queue);
    assert!(album.minimize && album.close);
    assert!(!album.album_view && !album.play && !album.pause);

    let hidden = button_activation(View::Miniplayer, false, true, true);
    assert!(!hidden.album_view && !hidden.minimize && !hidden.close);
    assert!(!hidden.heart_empty && !hidden.heart_filled);

    let playing = button_activation(View::Miniplayer, true, true, true);
    assert!(playing.album_view && playing.next_track && playing.back_track);
    assert!(playing.heart_filled && !playing.heart_empty);
    assert!(playing.pause && !playing.play);

    let paused = button_activation(View::Miniplayer, true, false, false);
    assert!(paused.heart_empty && !paused.heart_filled);
    assert!(paused.play && !paused.pause);
}
