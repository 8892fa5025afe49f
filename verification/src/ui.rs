//! Window-level interaction state: the mouse snapshot, button hit testing,
//! which view is shown, and the per-frame computation of which buttons are
//! active — a pure function of the current state, so no activation flag
//! survives from one frame to the next.

use vstd::prelude::*;

verus! {

/// A rectangle in window coordinates (pixels), left/top edges inclusive,
/// right/bottom exclusive, as the toolkit's hit tests treat them.
#[derive(Clone, Copy, PartialEq, Eq, Structural)]
pub struct Rect {
    pub x: i64,
    pub y: i64,
    pub w: i64,
    pub h: i64,
}

pub open spec fn rect_contains(r: Rect, px: int, py: int) -> bool {
    &&& r.x <= px < r.x + r.w
    &&& r.y <= py < r.y + r.h
}

impl Rect {
    /// Whether a point lies inside the rectangle.
    pub fn contains_point(&self, px: i64, py: i64) -> (b: bool)
        requires
            -0x1_0000_0000_0000 <= self.x + self.w <= 0x1_0000_0000_0000,
            -0x1_0000_0000_0000 <= self.y + self.h <= 0x1_0000_0000_0000,
        ensures
            b == rect_contains(*self, px as int, py as int),
    {
        self.x <= px && px < self.x + self.w && self.y <= py && py < self.y + self.h
    }
}

/// A snapshot of the pointer: the buttons held (as the toolkit's bit mask)
/// and the position relative to the window.
#[derive(Clone, Copy, PartialEq, Eq, Structural)]
pub struct MouseState {
    pub mouse_state: u32,
    pub x: i32,
    pub y: i32,
}

impl MouseState {
    /// A snapshot from the toolkit's raw values: the button mask and a
    /// window-relative position.
    pub fn new(mouse_state: u32, x: i32, y: i32) -> (m: MouseState)
        ensures
            m == (MouseState { mouse_state, x, y }),
    {
        MouseState { mouse_state, x, y }
    }

    pub fn x(&self) -> (r: i32)
        ensures
            r == self.x,
    {
        self.x
    }

    pub fn y(&self) -> (r: i32)
        ensures
            r == self.y,
    {
        self.y
    }

    /// Whether a button, given as the toolkit's 1-based button number, is
    /// held: its bit in the mask is set.
    pub fn is_mouse_button_pressed(&self, button: u32) -> (b: bool)
        requires
            1 <= button <= 32,
        ensures
            b == (self.mouse_state & (1u32 << ((button - 1) as u32)) != 0),
    {
        let mask: u32 = 1u32 << (button - 1);
        self.mouse_state & mask != 0
    }
}

/// Which screen the widget shows.
#[derive(Clone, Copy, PartialEq, Eq, Structural)]
pub enum View {
    Miniplayer,
    AlbumSelect,
}

/// How a button is drawn: idle, under the pointer, or pressed.
#[derive(Clone, Copy, Debug, PartialEq, Eq, Structural)]
pub enum ButtonState {
    Idle,
    Hover,
    Pressed,
}

/// Extra pixels around a button's image that still count as hitting it.
pub const BUTTON_COLLISION_MARGIN: i64 = 2;

/// One on-screen button: where it is drawn, the slightly larger area that
/// counts as hitting it, and whether it reacts this frame.
#[derive(Clone, Copy, PartialEq, Eq, Structural)]
pub struct Button {
    pub collision_rect: Rect,
    pub render_rect: Rect,
    pub active: bool,
}

impl Button {
    /// A button drawn at `(x, y)` with an image of `w` by `h` pixels; its
    /// hit area extends a margin beyond the image on every side.
    pub fn new(x: i64, y: i64, w: i64, h: i64) -> (b: Button)
        requires
            -0x8000_0000 <= x <= 0x8000_0000,
            -0x8000_0000 <= y <= 0x8000_0000,
            0 <= w <= 0x1_0000_0000,
            0 <= h <= 0x1_0000_0000,
        ensures
            b.collision_rect == (Rect {
                x: (x - BUTTON_COLLISION_MARGIN) as i64,
                y: (y - BUTTON_COLLISION_MARGIN) as i64,
                w: (w + 2 * BUTTON_COLLISION_MARGIN) as i64,
                h: (h + 2 * BUTTON_COLLISION_MARGIN) as i64,
            }),
            b.render_rect == (Rect { x, y, w, h }),
            b.active,
    {
        Button {
            collision_rect: Rect {
                x: x - BUTTON_COLLISION_MARGIN,
                y: y - BUTTON_COLLISION_MARGIN,
                w: w + 2 * BUTTON_COLLISION_MARGIN,
                h: h + 2 * BUTTON_COLLISION_MARGIN,
            },
            render_rect: Rect { x, y, w, h },
            active: true,
        }
    }

    /// How the button should be drawn for a pointer snapshot: pressed when
    /// the pointer holds the primary button over it, hovered when merely
    /// over it.
    pub fn get_state(&self, mouse_x: i64, mouse_y: i64, primary_held: bool) -> (s: ButtonState)
        requires
            -0x1_0000_0000_0000 <= self.collision_rect.x + self.collision_rect.w
                <= 0x1_0000_0000_0000,
            -0x1_0000_0000_0000 <= self.collision_rect.y + self.collision_rect.h
                <= 0x1_0000_0000_0000,
        ensures
            s == (if rect_contains(self.collision_rect, mouse_x as int, mouse_y as int) {
                if primary_held {
                    ButtonState::Pressed
                } else {
                    ButtonState::Hover
                }
            } else {
                ButtonState::Idle
            }),
    {
        if self.collision_rect.contains_point(mouse_x, mouse_y) {
            if primary_held {
                ButtonState::Pressed
            } else {
                ButtonState::Hover
            }
        } else {
            ButtonState::Idle
        }
    }

    /// Whether the pointer hits this button: it must be active and the
    /// point inside its hit area.
    pub fn is_hovering(&self, mouse_x: i64, mouse_y: i64) -> (b: bool)
        requires
            -0x1_0000_0000_0000 <= self.collision_rect.x + self.collision_rect.w
                <= 0x1_0000_0000_0000,
            -0x1_0000_0000_0000 <= self.collision_rect.y + self.collision_rect.h
                <= 0x1_0000_0000_0000,
        ensures
            b == (self.active && rect_contains(self.collision_rect, mouse_x as int, mouse_y as int)),
    {
        self.active && self.collision_rect.contains_point(mouse_x, mouse_y)
    }
}

/// Which buttons react this frame, computed afresh each frame from the
/// visible view and the player's state.
#[derive(Clone, Copy, PartialEq, Eq, Structural)]
pub struct ButtonActivation {
    pub album_view: bool,
    pub miniplayer_view: bool,
    pub heart_empty: bool,
    pub heart_filled: bool,
    pub reshuffle: bool,
    pub minimize: bool,
    pub close: bool,
    pub play: bool,
    pub pause: bool,
    pub next_track: bool,
    pub back_track: bool,
    pub queue: bool,
}

/// Computes the frame's active buttons. On the album screen the window
/// chrome, the view switch, the reshuffle and the queue target react. On
/// the miniplayer nothing reacts until the overlay shows; then transport
/// and chrome react, exactly one heart matching the track's loved flag,
/// and play or pause matching whether the player plays.
pub fn button_activation(view: View, overlay: bool, loved: bool, playing: bool) -> (a:
    ButtonActivation)
    ensures
        view is AlbumSelect ==> a == (ButtonActivation {
            album_view: false,
            miniplayer_view: true,
            heart_empty: false,
            heart_filled: false,
            reshuffle: true,
            minimize: true,
            close: true,
            play: false,
            pause: false,
            next_track: false,
            back_track: false,
            queue: true,
        }),
        view is Miniplayer && overlay ==> a == (ButtonActivation {
            album_view: true,
            miniplayer_view: false,
            heart_empty: !loved,
            heart_filled: loved,
            reshuffle: false,
            minimize: true,
            close: true,
            play: !playing,
            pause: playing,
            next_track: true,
            back_track: true,
            queue: false,
        }),
        view is Miniplayer && !overlay ==> a == (ButtonActivation {
            album_view: false,
            miniplayer_view: false,
            heart_empty: false,
            heart_filled: false,
            reshuffle: false,
            minimize: false,
            close: false,
            play: false,
            pause: false,
            next_track: false,
            back_track: false,
            queue: false,
        }),
{
    match view {
        View::AlbumSelect => ButtonActivation {
            album_view: false,
            miniplayer_view: true,
            heart_empty: false,
            heart_filled: false,
            reshuffle: true,
            minimize: true,
            close: true,
            play: false,
            pause: false,
            next_track: false,
            back_track: false,
            queue: true,
        },
        View::Miniplayer => {
            if overlay {
                ButtonActivation {
                    album_view: true,
                    miniplayer_view: false,
                    heart_empty: !loved,
                    heart_filled: loved,
                    reshuffle: false,
                    minimize: true,
                    close: true,
                    play: !playing,
                    pause: playing,
                    next_track: true,
                    back_track: true,
                    queue: false,
                }
            } else {
                ButtonActivation {
                    album_view: false,
                    miniplayer_view: false,
                    heart_empty: false,
                    heart_filled: false,
                    reshuffle: false,
                    minimize: false,
                    close: false,
                    play: false,
                    pause: false,
                    next_track: false,
                    back_track: false,
                    queue: false,
                }
            }
        },
    }
}

} // verus!
