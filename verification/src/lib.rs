//! Core logic of a borderless desktop miniplayer widget: a 3-row scrolling
//! album grid with drag-and-drop reordering, a FIFO recycling queue of
//! off-screen albums, per-item easing animations, and a parametric arc
//! animation for tossing an album onto the playback queue.
//!
//! Geometry and motion are computed in fixed-point subpixels (1/1000 px),
//! so every position update is exact integer arithmetic.

pub mod geom;
pub mod layout;
pub mod anim;
pub mod queue;
pub mod drag;
pub mod catalog;
pub mod grid;
pub mod ui;
pub mod player;
pub mod text;
